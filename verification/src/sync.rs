//! The interrupt-safe spinlock's lock word.
use core::sync::atomic::{AtomicBool, Ordering};
use vstd::prelude::*;

verus! {

/// A lock word that is taken with a compare-and-swap from `false` to `true`
/// and released by storing `false`. What the word holds at any moment is
/// decided by the other CPUs as much as by the caller, so the contracts
/// below state nothing about it.
pub struct IrqRawSpinlock {
    locked: AtomicBool,
}

impl IrqRawSpinlock {
    /// A lock word that starts out free.
    pub fn new() -> (l: Self) {
        IrqRawSpinlock { locked: AtomicBool::new(false) }
    }

    /// Takes the lock if it is free, without waiting; `true` when it was taken.
    pub fn try_lock(&self) -> (taken: bool) {
        self.locked.compare_exchange(false, true, Ordering::Acquire, Ordering::Relaxed).is_ok()
    }

    /// One attempt of the spinning acquisition: may fail spuriously even
    /// when the lock is free; `true` when it was taken.
    pub fn try_lock_weak(&self) -> (taken: bool) {
        self.locked.compare_exchange_weak(false, true, Ordering::Acquire, Ordering::Relaxed).is_ok()
    }

    /// Releases the lock; the caller must hold it.
    pub fn unlock(&self) {
        self.locked.store(false, Ordering::Release);
    }

    /// Whether the lock is held.
    pub fn is_locked(&self) -> (b: bool) {
        self.locked.load(Ordering::Acquire)
    }
}

impl Default for IrqRawSpinlock {
    fn default() -> (l: Self) {
        IrqRawSpinlock::new()
    }
}

/// The back-off counter of a spinning acquisition after one more failed
/// attempt; it wraps to zero every 4096 attempts, which is when the waiter
/// pauses a little longer.
pub fn next_spin_count(spin_count: u32) -> (c: u32)
    ensures
        c == (spin_count + 1) % 4096,
{
    let n = spin_count.wrapping_add(1) & 0xFFF;
    assert((if spin_count == 0xffff_ffffu32 { 0u32 } else { (spin_count + 1) as u32 }) & 0xFFFu32
        == ((spin_count + 1) % 4096) as u32) by (bit_vector);
    n
}

} // verus!
