//! The state word of the blocking mutex and the decisions taken on it.
//!
//! The word packs a 2-bit tag (unlocked, owned, hand-off pending), a 16-bit
//! epoch that changes at every release, and a 46-bit task id: the owner, or
//! the waiter the lock is being handed to.
use vstd::prelude::*;

verus! {

pub const TAG_BITS: u64 = 2;

pub const EPOCH_BITS: u64 = 16;

pub const TASK_BITS: u64 = 46;

pub const TASK_MASK: u64 = 0x3fff_ffff_ffff;

pub const EPOCH_SHIFT: u64 = 46;

pub const TAG_SHIFT: u64 = 62;

pub const EPOCH_MASK: u64 = 0xffff;

pub const TAG_UNLOCKED: u64 = 0;

pub const TAG_OWNED: u64 = 1;

pub const TAG_HANDOFF_PENDING: u64 = 2;

/// The state word holding `tag`, the low 16 bits of `epoch` and the low 46
/// bits of `task_id`.
pub open spec fn encode_state_spec(tag: u64, epoch: u64, task_id: u64) -> u64 {
    (tag << 62u64) | ((epoch & 0xffffu64) << 46u64) | (task_id & 0x3fff_ffff_ffffu64)
}

/// The tag of a state word.
pub open spec fn tag_spec(state: u64) -> u64 {
    state >> 62u64
}

/// The epoch of a state word.
pub open spec fn epoch_spec(state: u64) -> u64 {
    (state >> 46u64) & 0xffffu64
}

/// The task id of a state word.
pub open spec fn task_id_spec(state: u64) -> u64 {
    state & 0x3fff_ffff_ffffu64
}

/// Packs a tag, an epoch and a task id into a state word.
pub fn encode_state(tag: u64, epoch: u64, task_id: u64) -> (s: u64)
    requires
        task_id <= TASK_MASK,
    ensures
        s == encode_state_spec(tag, epoch, task_id),
{
    (tag << TAG_SHIFT) | ((epoch & EPOCH_MASK) << EPOCH_SHIFT) | (task_id & TASK_MASK)
}

/// The state word of an unlocked mutex in `epoch`.
pub fn encode_unlocked(epoch: u64) -> (s: u64)
    ensures
        s == encode_state_spec(TAG_UNLOCKED, epoch, 0),
{
    encode_state(TAG_UNLOCKED, epoch, 0)
}

/// The state word of a mutex owned by `owner_id` in `epoch`.
pub fn encode_owned(owner_id: u64, epoch: u64) -> (s: u64)
    requires
        owner_id <= TASK_MASK,
    ensures
        s == encode_state_spec(TAG_OWNED, epoch, owner_id),
{
    encode_state(TAG_OWNED, epoch, owner_id)
}

/// The state word of a mutex being handed to `target_id` in `epoch`.
pub fn encode_handoff(target_id: u64, epoch: u64) -> (s: u64)
    requires
        target_id <= TASK_MASK,
    ensures
        s == encode_state_spec(TAG_HANDOFF_PENDING, epoch, target_id),
{
    encode_state(TAG_HANDOFF_PENDING, epoch, target_id)
}

/// The tag of a state word.
pub fn tag(state: u64) -> (t: u64)
    ensures
        t == tag_spec(state),
        t <= 3,
{
    assert(state >> 62u64 <= 3) by (bit_vector);
    state >> TAG_SHIFT
}

/// The epoch of a state word.
pub fn epoch(state: u64) -> (e: u64)
    ensures
        e == epoch_spec(state),
        e <= EPOCH_MASK,
{
    assert((state >> 46u64) & 0xffffu64 <= 0xffffu64) by (bit_vector);
    (state >> EPOCH_SHIFT) & EPOCH_MASK
}

/// The task id of a state word.
pub fn task_id(state: u64) -> (t: u64)
    ensures
        t == task_id_spec(state),
        t <= TASK_MASK,
{
    assert(state & 0x3fff_ffff_ffffu64 <= 0x3fff_ffff_ffffu64) by (bit_vector);
    state & TASK_MASK
}

/// The epoch after the one of `state`, wrapping around at 16 bits.
pub open spec fn next_epoch_spec(state: u64) -> u64 {
    ((epoch_spec(state) + 1) % 0x10000) as u64
}

/// The epoch after the one of `state`, wrapping around at 16 bits.
pub fn next_epoch(state: u64) -> (e: u64)
    ensures
        e == next_epoch_spec(state),
{
    let e = epoch(state);
    let n = e.wrapping_add(1) & EPOCH_MASK;
    assert(e <= 0xffff ==> (if e + 1 <= u64::MAX { (e + 1) as u64 } else { 0u64 }) & 0xffffu64 == ((e + 1)
        % 0x10000) as u64) by (bit_vector);
    n
}

/// Whether the mutex is unlocked.
pub fn is_unlocked(state: u64) -> (b: bool)
    ensures
        b == (tag_spec(state) == TAG_UNLOCKED),
{
    tag(state) == TAG_UNLOCKED
}

/// Whether the mutex is owned by `owner_id`.
pub fn is_owned_by(state: u64, owner_id: u64) -> (b: bool)
    ensures
        b == (tag_spec(state) == TAG_OWNED && task_id_spec(state) == owner_id),
{
    tag(state) == TAG_OWNED && task_id(state) == owner_id
}

/// Whether the mutex is being handed to `id`.
pub fn is_handoff_to(state: u64, id: u64) -> (b: bool)
    ensures
        b == (tag_spec(state) == TAG_HANDOFF_PENDING && task_id_spec(state) == id),
{
    tag(state) == TAG_HANDOFF_PENDING && task_id(state) == id
}

/// Whether the mutex is held or promised to a waiter.
pub fn is_locked(state: u64) -> (b: bool)
    ensures
        b == (tag_spec(state) != TAG_UNLOCKED),
{
    !is_unlocked(state)
}

/// Whether a task with `id` may take the mutex in `state`: it is unlocked,
/// or it is being handed to this very task.
pub open spec fn can_acquire_spec(state: u64, id: u64) -> bool {
    tag_spec(state) == TAG_UNLOCKED || (tag_spec(state) == TAG_HANDOFF_PENDING && task_id_spec(state) == id)
}

/// A mutex that is owned can be taken by no task, and one that is being
/// handed over only by the task it is handed to: at most one task can take
/// a mutex that is not unlocked.
pub proof fn lemma_single_acquirer(state: u64, a: u64, b: u64)
    requires
        tag_spec(state) != TAG_UNLOCKED,
    ensures
        tag_spec(state) == TAG_OWNED ==> !can_acquire_spec(state, a),
        can_acquire_spec(state, a) && can_acquire_spec(state, b) ==> a == b,
{
}

/// What a task with `current_id` may do on finding `state`: take ownership
/// in the same epoch when the mutex is unlocked (flag `false`) or is pending
/// for this very task (flag `true`); `None` when it must wait. A task never
/// asks for a mutex it already owns.
pub fn acquire_transition(state: u64, current_id: u64) -> (r: Option<(u64, bool)>)
    requires
        current_id <= TASK_MASK,
        !(tag_spec(state) == TAG_OWNED && task_id_spec(state) == current_id),
    ensures
        r is Some <==> can_acquire_spec(state, current_id),
        tag_spec(state) == TAG_UNLOCKED ==> r == Some(
            (encode_state_spec(TAG_OWNED, epoch_spec(state), current_id), false),
        ),
        tag_spec(state) == TAG_HANDOFF_PENDING && task_id_spec(state) == current_id ==> r == Some(
            (encode_state_spec(TAG_OWNED, epoch_spec(state), current_id), true),
        ),
{
    let t = tag(state);
    if t == TAG_UNLOCKED {
        Some((encode_owned(current_id, epoch(state)), false))
    } else if t == TAG_HANDOFF_PENDING && task_id(state) == current_id {
        Some((encode_owned(current_id, epoch(state)), true))
    } else {
        None
    }
}

/// What a release by its owner computes from `state`: the unlocked word in
/// the next epoch, and that epoch.
pub fn release_transition(state: u64, current_id: u64) -> (r: (u64, u64))
    requires
        tag_spec(state) == TAG_OWNED,
        task_id_spec(state) == current_id,
    ensures
        r.1 == next_epoch_spec(state),
        r.0 == encode_state_spec(TAG_UNLOCKED, next_epoch_spec(state), 0),
{
    let n = next_epoch(state);
    (encode_unlocked(n), n)
}

/// The word a release publishes for the waiter it wakes: `None` when no task
/// waits (id 0, the mutex is simply unlocked), and otherwise the hand-off to
/// that task in the next epoch.
pub fn handoff_target(waiter_id: u64, next_epoch: u64) -> (r: Option<u64>)
    requires
        waiter_id <= TASK_MASK,
    ensures
        waiter_id == 0 ==> r is None,
        waiter_id != 0 ==> r == Some(encode_state_spec(TAG_HANDOFF_PENDING, next_epoch, waiter_id)),
{
    if waiter_id == 0 {
        None
    } else {
        Some(encode_handoff(waiter_id, next_epoch))
    }
}

/// Checks of the state word that a releasing task spins between while it
/// waits for the task it handed the mutex to.
pub const HANDOFF_ACCEPT_SPINS: usize = 32;

/// Checks of the state word that a releasing task yields before, after the
/// spinning ones.
pub const HANDOFF_ACCEPT_YIELDS: usize = 4;

/// What a releasing task does after finding the hand-off word still in
/// place.
#[derive(Debug, Clone, Copy, PartialEq, Eq, Structural)]
pub enum HandoffWait {
    /// Spin once and check again.
    Spin,
    /// Spin once, then yield, and check again.
    SpinThenYield,
    /// Yield and check again.
    Yield,
    /// Stop waiting: take the hand-off back and unlock.
    Fallback,
}

/// The step after the `k`-th check (from 1) found the hand-off word still
/// in place: the first `HANDOFF_ACCEPT_SPINS` checks are each followed by a
/// spin, the next `HANDOFF_ACCEPT_YIELDS` each preceded by a yield, and
/// after the last of them the hand-off is taken back. A check that finds
/// the word changed ends the wait.
pub fn handoff_wait_step(k: usize) -> (w: HandoffWait)
    requires
        1 <= k <= HANDOFF_ACCEPT_SPINS + HANDOFF_ACCEPT_YIELDS,
    ensures
        k < HANDOFF_ACCEPT_SPINS ==> w == HandoffWait::Spin,
        k == HANDOFF_ACCEPT_SPINS ==> w == HandoffWait::SpinThenYield,
        HANDOFF_ACCEPT_SPINS < k < HANDOFF_ACCEPT_SPINS + HANDOFF_ACCEPT_YIELDS ==> w
            == HandoffWait::Yield,
        k == HANDOFF_ACCEPT_SPINS + HANDOFF_ACCEPT_YIELDS ==> w == HandoffWait::Fallback,
{
    if k < HANDOFF_ACCEPT_SPINS {
        HandoffWait::Spin
    } else if k == HANDOFF_ACCEPT_SPINS {
        HandoffWait::SpinThenYield
    } else if k < HANDOFF_ACCEPT_SPINS + HANDOFF_ACCEPT_YIELDS {
        HandoffWait::Yield
    } else {
        HandoffWait::Fallback
    }
}

/// A state word gives back the tag, epoch and task id it was built from.
pub proof fn lemma_decode_encode(tag: u64, epoch: u64, task_id: u64)
    requires
        tag <= 3,
        epoch <= EPOCH_MASK,
        task_id <= TASK_MASK,
    ensures
        tag_spec(encode_state_spec(tag, epoch, task_id)) == tag,
        epoch_spec(encode_state_spec(tag, epoch, task_id)) == epoch,
        task_id_spec(encode_state_spec(tag, epoch, task_id)) == task_id,
{
    assert(tag <= 3 && epoch <= 0xffff && task_id <= 0x3fff_ffff_ffff ==> ((tag << 62u64) | ((epoch
        & 0xffffu64) << 46u64) | (task_id & 0x3fff_ffff_ffffu64)) >> 62u64 == tag) by (bit_vector);
    assert(tag <= 3 && epoch <= 0xffff && task_id <= 0x3fff_ffff_ffff ==> ((((tag << 62u64) | ((
    epoch & 0xffffu64) << 46u64) | (task_id & 0x3fff_ffff_ffffu64)) >> 46u64) & 0xffffu64) == epoch)
        by (bit_vector);
    assert(tag <= 3 && epoch <= 0xffff && task_id <= 0x3fff_ffff_ffff ==> (((tag << 62u64) | ((epoch
        & 0xffffu64) << 46u64) | (task_id & 0x3fff_ffff_ffffu64)) & 0x3fff_ffff_ffffu64) == task_id)
        by (bit_vector);
}

/// Every release moves the epoch on, so a word left over from before the
/// release never equals a word of the new epoch.
pub proof fn lemma_release_changes_epoch(state: u64)
    ensures
        next_epoch_spec(state) != epoch_spec(state),
        next_epoch_spec(state) <= EPOCH_MASK,
{
    assert((state >> 46u64) & 0xffffu64 <= 0xffffu64) by (bit_vector);
}

/// Acquiring keeps the epoch and makes the acquirer the owner; releasing
/// leaves the mutex unlocked in the next epoch.
pub proof fn lemma_acquire_release(state: u64, id: u64)
    requires
        tag_spec(state) == TAG_UNLOCKED,
        id <= TASK_MASK,
    ensures
        tag_spec(encode_state_spec(TAG_OWNED, epoch_spec(state), id)) == TAG_OWNED,
        task_id_spec(encode_state_spec(TAG_OWNED, epoch_spec(state), id)) == id,
        epoch_spec(encode_state_spec(TAG_OWNED, epoch_spec(state), id)) == epoch_spec(state),
        tag_spec(
            encode_state_spec(
                TAG_UNLOCKED,
                next_epoch_spec(encode_state_spec(TAG_OWNED, epoch_spec(state), id)),
                0,
            ),
        ) == TAG_UNLOCKED,
{
    lemma_release_changes_epoch(state);
    assert((state >> 46u64) & 0xffffu64 <= 0xffffu64) by (bit_vector);
    lemma_decode_encode(TAG_OWNED, epoch_spec(state), id);
    let s2 = encode_state_spec(TAG_OWNED, epoch_spec(state), id);
    lemma_release_changes_epoch(s2);
    lemma_decode_encode(TAG_UNLOCKED, next_epoch_spec(s2), 0);
}

/// Counts of how releases of the mutex ended.
#[derive(Debug, Clone, Copy, Default, PartialEq, Eq)]
pub struct HandoffStats {
    pub accepts: u64,
    pub fallbacks: u64,
    pub direct_unlocks: u64,
}

impl HandoffStats {
    /// All releases counted.
    pub fn total_unlocks(self) -> (t: u64)
        requires
            self.accepts + self.fallbacks + self.direct_unlocks <= u64::MAX,
        ensures
            t == self.accepts + self.fallbacks + self.direct_unlocks,
    {
        self.accepts + self.fallbacks + self.direct_unlocks
    }
}

/// The counters behind `HandoffStats`; each step wraps around as an atomic
/// increment does.
#[derive(Debug)]
pub struct HandoffCounters {
    pub accepts: u64,
    pub fallbacks: u64,
    pub direct_unlocks: u64,
}

impl HandoffCounters {
    /// Counters at zero.
    pub fn new() -> (c: Self)
        ensures
            c.accepts == 0 && c.fallbacks == 0 && c.direct_unlocks == 0,
    {
        HandoffCounters { accepts: 0, fallbacks: 0, direct_unlocks: 0 }
    }

    /// Counts a hand-off that the woken task took up.
    pub fn record_accept(&mut self)
        ensures
            final(self).accepts == (old(self).accepts + 1) % 0x1_0000_0000_0000_0000,
            final(self).fallbacks == old(self).fallbacks,
            final(self).direct_unlocks == old(self).direct_unlocks,
    {
        self.accepts = self.accepts.wrapping_add(1);
    }

    /// Counts a hand-off that was taken back because nobody took it up.
    pub fn record_fallback(&mut self)
        ensures
            final(self).fallbacks == (old(self).fallbacks + 1) % 0x1_0000_0000_0000_0000,
            final(self).accepts == old(self).accepts,
            final(self).direct_unlocks == old(self).direct_unlocks,
    {
        self.fallbacks = self.fallbacks.wrapping_add(1);
    }

    /// Counts a release with no waiter.
    pub fn record_direct_unlock(&mut self)
        ensures
            final(self).direct_unlocks == (old(self).direct_unlocks + 1) % 0x1_0000_0000_0000_0000,
            final(self).accepts == old(self).accepts,
            final(self).fallbacks == old(self).fallbacks,
    {
        self.direct_unlocks = self.direct_unlocks.wrapping_add(1);
    }
}

/// The current counts.
pub fn handoff_stats(counters: &HandoffCounters) -> (s: HandoffStats)
    ensures
        s.accepts == counters.accepts,
        s.fallbacks == counters.fallbacks,
        s.direct_unlocks == counters.direct_unlocks,
{
    HandoffStats {
        accepts: counters.accepts,
        fallbacks: counters.fallbacks,
        direct_unlocks: counters.direct_unlocks,
    }
}

/// Sets every count back to zero.
pub fn reset_handoff_stats(counters: &mut HandoffCounters)
    ensures
        final(counters).accepts == 0,
        final(counters).fallbacks == 0,
        final(counters).direct_unlocks == 0,
{
    counters.accepts = 0;
    counters.fallbacks = 0;
    counters.direct_unlocks = 0;
}

} // verus!
