//! The boot memory map: registered RAM and reserved regions, and the merged
//! list of reserved regions.
use crate::align::{align_down, align_down_spec, align_up, align_up_ok, align_up_spec};
use crate::memory::{MemoryDescriptor, MemoryType};
use vstd::prelude::*;
use vstd::string::StringSliceAdditionalSpecFns;

verus! {

/// Capacity of the region lists.
pub const MAP_CAPACITY: usize = 32;

/// What a `heapless::Vec<MemoryDescriptor, 32>` holds, in order.
pub uninterp spec fn descriptors32(v: heapless::Vec<MemoryDescriptor, 32>) -> Seq<MemoryDescriptor>;

/// `heapless::Vec::new`: an empty vector.
#[verifier::external_body]
pub(crate) fn descriptors32_new() -> (v: heapless::Vec<MemoryDescriptor, 32>)
    ensures
        descriptors32(v) == Seq::<MemoryDescriptor>::empty(),
{
    heapless::Vec::new()
}

/// `heapless::Vec::push`: appends when fewer than 32 items are held, and
/// otherwise hands the item back and leaves the vector as it was.
#[verifier::external_body]
pub(crate) fn descriptors32_push(v: &mut heapless::Vec<MemoryDescriptor, 32>, x: MemoryDescriptor) -> (r:
    Result<(), MemoryDescriptor>)
    ensures
        descriptors32(*old(v)).len() < 32 ==> (r is Ok && descriptors32(*final(v)) == descriptors32(
            *old(v),
        ).push(x)),
        descriptors32(*old(v)).len() >= 32 ==> (r is Err && descriptors32(*final(v))
            == descriptors32(*old(v))),
{
    v.push(x)
}

/// `heapless::Vec::pop`: removes and returns the last item, if any.
#[verifier::external_body]
fn descriptors32_pop(v: &mut heapless::Vec<MemoryDescriptor, 32>) -> (r: Option<MemoryDescriptor>)
    ensures
        descriptors32(*old(v)).len() > 0 ==> (r == Some(descriptors32(*old(v)).last())
            && descriptors32(*final(v)) == descriptors32(*old(v)).drop_last()),
        descriptors32(*old(v)).len() == 0 ==> (r is None && descriptors32(*final(v))
            == descriptors32(*old(v))),
{
    v.pop()
}

/// `heapless::Vec::as_slice`: the items held, in order.
#[verifier::external_body]
pub(crate) fn descriptors32_as_slice(v: &heapless::Vec<MemoryDescriptor, 32>) -> (s: &[MemoryDescriptor])
    ensures
        s@ == descriptors32(*v),
{
    v.as_slice()
}

/// Whether two names are the same byte string.
pub open spec fn same_name_spec(a: &str, b: &str) -> bool {
    a.spec_bytes() == b.spec_bytes()
}

/// Whether two names are the same byte string.
pub fn same_name(a: &str, b: &str) -> (r: bool)
    ensures
        r == same_name_spec(a, b),
{
    let x = a.as_bytes();
    let y = b.as_bytes();
    if x.len() != y.len() {
        return false;
    }
    let mut i: usize = 0;
    while i < x.len()
        invariant
            x@ == a.spec_bytes(),
            y@ == b.spec_bytes(),
            x.len() == y.len(),
            0 <= i <= x.len(),
            forall|j: int| 0 <= j < i ==> x@[j] == y@[j],
        decreases x.len() - i,
    {
        if x[i] != y[i] {
            return false;
        }
        i = i + 1;
    }
    assert(x@ =~= y@);
    true
}

/// `t` with `x` placed after every item that starts no later than `x`.
pub open spec fn insert_by_start(t: Seq<MemoryDescriptor>, x: MemoryDescriptor) -> Seq<
    MemoryDescriptor,
>
    decreases t.len(),
{
    if t.len() == 0 {
        seq![x]
    } else if t.last().physical_start <= x.physical_start {
        t.push(x)
    } else {
        insert_by_start(t.drop_last(), x).push(t.last())
    }
}

/// `s` sorted by start address; items that start at the same address keep
/// their order (a stable sort).
pub open spec fn sort_by_start_spec(s: Seq<MemoryDescriptor>) -> Seq<MemoryDescriptor>
    decreases s.len(),
{
    if s.len() == 0 {
        Seq::empty()
    } else {
        insert_by_start(sort_by_start_spec(s.drop_last()), s.last())
    }
}

proof fn lemma_insert_at(t: Seq<MemoryDescriptor>, x: MemoryDescriptor, p: int)
    requires
        0 <= p <= t.len(),
        p == 0 || t[p - 1].physical_start <= x.physical_start,
        forall|q: int| p <= q < t.len() ==> #[trigger] t[q].physical_start > x.physical_start,
    ensures
        insert_by_start(t, x) == t.insert(p, x),
    decreases t.len(),
{
    if t.len() == 0 {
        assert(t.insert(p, x) =~= seq![x]);
    } else if p == t.len() {
        assert(t.insert(p, x) =~= t.push(x));
    } else {
        assert(t.last().physical_start > x.physical_start);
        lemma_insert_at(t.drop_last(), x, p);
        assert(t.insert(p, x) =~= t.drop_last().insert(p, x).push(t.last()));
    }
}

/// The descriptors of `s` sorted by start address, stably.
pub fn sort_by_start(s: &[MemoryDescriptor]) -> (r: Vec<MemoryDescriptor>)
    ensures
        r@ == sort_by_start_spec(s@),
{
    let mut out: Vec<MemoryDescriptor> = Vec::new();
    let mut i: usize = 0;
    assert(s@.take(0) =~= Seq::<MemoryDescriptor>::empty());
    while i < s.len()
        invariant
            0 <= i <= s.len(),
            out@ == sort_by_start_spec(s@.take(i as int)),
        decreases s.len() - i,
    {
        let x = s[i];
        let mut p: usize = out.len();
        while p > 0 && out[p - 1].physical_start > x.physical_start
            invariant
                0 <= p <= out.len(),
                forall|q: int| p <= q < out.len() ==> #[trigger] out@[q].physical_start > x.physical_start,
            decreases p,
        {
            p = p - 1;
        }
        proof {
            lemma_insert_at(out@, x, p as int);
            assert(s@.take(i + 1).drop_last() == s@.take(i as int));
            assert(s@.take(i + 1).last() == x);
        }
        out.insert(p, x);
        i = i + 1;
    }
    assert(s@.take(s.len() as int) == s@);
    out
}

/// Whether the descriptor ends within the address space.
pub open spec fn ends_in_range(d: MemoryDescriptor) -> bool {
    d.physical_start + d.size_in_bytes <= usize::MAX
}

/// Whether `d` continues the region `last`: same name, starting where `last` ends.
pub open spec fn continues(last: MemoryDescriptor, d: MemoryDescriptor) -> bool {
    same_name_spec(last.name, d.name) && last.physical_start + last.size_in_bytes == d.physical_start
}

/// `last` grown to also cover `d`.
pub open spec fn extended(last: MemoryDescriptor, d: MemoryDescriptor) -> MemoryDescriptor {
    MemoryDescriptor { size_in_bytes: (last.size_in_bytes + d.size_in_bytes) as usize, ..last }
}

/// Merging `s` in order: a descriptor that continues the last merged one
/// extends it, any other is appended; once an append finds 32 descriptors
/// merged, the rest is dropped. The flag tells whether that happened.
pub open spec fn merge_spec(s: Seq<MemoryDescriptor>) -> (Seq<MemoryDescriptor>, bool)
    decreases s.len(),
{
    if s.len() == 0 {
        (Seq::empty(), false)
    } else {
        let (m, stopped) = merge_spec(s.drop_last());
        let d = s.last();
        if stopped {
            (m, true)
        } else if m.len() > 0 && continues(m.last(), d) {
            (m.update(m.len() - 1, extended(m.last(), d)), false)
        } else if m.len() < MAP_CAPACITY {
            (m.push(d), false)
        } else {
            (m, true)
        }
    }
}

proof fn lemma_merge_ends(s: Seq<MemoryDescriptor>)
    requires
        forall|i: int| 0 <= i < s.len() ==> ends_in_range(#[trigger] s[i]),
    ensures
        forall|i: int| 0 <= i < merge_spec(s).0.len() ==> ends_in_range(#[trigger] merge_spec(s).0[i]),
        merge_spec(s).0.len() <= MAP_CAPACITY,
    decreases s.len(),
{
    if s.len() > 0 {
        lemma_merge_ends(s.drop_last());
        assert(ends_in_range(s[s.len() - 1]));
    }
}

/// The bytes the descriptors of `s` cover in all, counted with overlaps.
pub open spec fn total_size(s: Seq<MemoryDescriptor>) -> int
    decreases s.len(),
{
    if s.len() == 0 {
        0
    } else {
        total_size(s.drop_last()) + s.last().size_in_bytes
    }
}

/// Merging keeps the total size: when no descriptor was dropped, the merged
/// descriptors cover as many bytes as those merged.
pub proof fn lemma_merge_keeps_total_size(s: Seq<MemoryDescriptor>)
    requires
        forall|i: int| 0 <= i < s.len() ==> ends_in_range(#[trigger] s[i]),
    ensures
        !merge_spec(s).1 ==> total_size(merge_spec(s).0) == total_size(s),
    decreases s.len(),
{
    if s.len() > 0 {
        let p = s.drop_last();
        assert forall|i: int| 0 <= i < p.len() implies ends_in_range(#[trigger] p[i]) by {
            assert(p[i] == s[i]);
        }
        lemma_merge_keeps_total_size(p);
        let (m, stopped) = merge_spec(p);
        let d = s.last();
        assert(ends_in_range(s[s.len() - 1]));
        if !stopped {
            if m.len() > 0 && continues(m.last(), d) {
                let m2 = m.update(m.len() - 1, extended(m.last(), d));
                assert(m2.drop_last() =~= m.drop_last());
                assert(m2.last() == extended(m.last(), d));
            } else if m.len() < MAP_CAPACITY {
                assert(m.push(d).drop_last() =~= m);
            }
        }
    }
}

proof fn lemma_sort_keeps_items(s: Seq<MemoryDescriptor>)
    ensures
        forall|i: int| 0 <= i < sort_by_start_spec(s).len() ==> s.contains(#[trigger] sort_by_start_spec(s)[i]),
        sort_by_start_spec(s).len() == s.len(),
    decreases s.len(),
{
    if s.len() > 0 {
        lemma_sort_keeps_items(s.drop_last());
        lemma_insert_keeps_items(sort_by_start_spec(s.drop_last()), s.last());
        let t = sort_by_start_spec(s);
        assert forall|i: int| 0 <= i < t.len() implies s.contains(#[trigger] t[i]) by {
            let x = t[i];
            if x != s.last() {
                let tl = sort_by_start_spec(s.drop_last());
                assert(tl.contains(x));
                let j = choose|j: int| 0 <= j < tl.len() && tl[j] == x;
                assert(s.drop_last().contains(x));
                let k = choose|k: int| 0 <= k < s.drop_last().len() && s.drop_last()[k] == x;
                assert(s[k] == x);
            } else {
                assert(s[s.len() - 1] == x);
            }
        }
    }
}

proof fn lemma_insert_keeps_items(t: Seq<MemoryDescriptor>, x: MemoryDescriptor)
    ensures
        insert_by_start(t, x).len() == t.len() + 1,
        forall|i: int|
            0 <= i < insert_by_start(t, x).len() ==> (#[trigger] insert_by_start(t, x)[i] == x
                || t.contains(insert_by_start(t, x)[i])),
    decreases t.len(),
{
    if t.len() > 0 && t.last().physical_start > x.physical_start {
        lemma_insert_keeps_items(t.drop_last(), x);
        let u = insert_by_start(t, x);
        assert forall|i: int| 0 <= i < u.len() implies (#[trigger] u[i] == x || t.contains(u[i])) by {
            if i == u.len() - 1 {
                assert(t[t.len() - 1] == u[i]);
            } else {
                let v = insert_by_start(t.drop_last(), x);
                assert(u[i] == v[i]);
                if v[i] != x {
                    let k = choose|k: int| 0 <= k < t.drop_last().len() && t.drop_last()[k] == v[i];
                    assert(t[k] == v[i]);
                }
            }
        }
    } else if t.len() > 0 {
        let u = insert_by_start(t, x);
        assert forall|i: int| 0 <= i < u.len() implies (#[trigger] u[i] == x || t.contains(u[i])) by {
            if i < t.len() {
                assert(u[i] == t[i]);
            }
        }
    }
}

/// Whether `s` is ordered by start address.
pub open spec fn sorted_by_start(s: Seq<MemoryDescriptor>) -> bool {
    forall|i: int, j: int| 0 <= i <= j < s.len() ==> #[trigger] s[i].physical_start <= #[trigger] s[j].physical_start
}

proof fn lemma_insert_sorted(t: Seq<MemoryDescriptor>, x: MemoryDescriptor)
    requires
        sorted_by_start(t),
    ensures
        sorted_by_start(insert_by_start(t, x)),
    decreases t.len(),
{
    if t.len() == 0 {
    } else if t.last().physical_start <= x.physical_start {
        let u = t.push(x);
        assert forall|i: int, j: int| 0 <= i <= j < u.len() implies #[trigger] u[i].physical_start
            <= #[trigger] u[j].physical_start by {
            if j == u.len() - 1 && i < j {
                assert(t[i].physical_start <= t[t.len() - 1].physical_start);
            }
        }
    } else {
        let tl = t.drop_last();
        assert(sorted_by_start(tl)) by {
            assert forall|i: int, j: int| 0 <= i <= j < tl.len() implies #[trigger] tl[i].physical_start
                <= #[trigger] tl[j].physical_start by {
                assert(tl[i] == t[i] && tl[j] == t[j]);
            }
        }
        lemma_insert_sorted(tl, x);
        lemma_insert_keeps_items(tl, x);
        let v = insert_by_start(tl, x);
        let u = v.push(t.last());
        assert forall|i: int, j: int| 0 <= i <= j < u.len() implies #[trigger] u[i].physical_start
            <= #[trigger] u[j].physical_start by {
            if j == u.len() - 1 && i < j {
                assert(u[i] == v[i]);
                if v[i] != x {
                    let k = choose|k: int| 0 <= k < tl.len() && tl[k] == v[i];
                    assert(t[k] == v[i]);
                    assert(t[k].physical_start <= t[t.len() - 1].physical_start);
                }
            } else if j < u.len() - 1 {
                assert(u[i] == v[i] && u[j] == v[j]);
            }
        }
    }
}

/// Sorting by start address gives a list ordered by start address that
/// holds the same number of descriptors, each taken from the input.
pub proof fn lemma_sort_by_start_sorted(s: Seq<MemoryDescriptor>)
    ensures
        sorted_by_start(sort_by_start_spec(s)),
        sort_by_start_spec(s).len() == s.len(),
        forall|i: int| 0 <= i < s.len() ==> s.contains(#[trigger] sort_by_start_spec(s)[i]),
    decreases s.len(),
{
    lemma_sort_keeps_items(s);
    if s.len() > 0 {
        lemma_sort_by_start_sorted(s.drop_last());
        lemma_insert_sorted(sort_by_start_spec(s.drop_last()), s.last());
    }
}

/// Merging keeps a list ordered by start address, and leaves no descriptor
/// that continues the one before it: every run that could be merged was.
pub proof fn lemma_merge_sorted_and_maximal(s: Seq<MemoryDescriptor>)
    requires
        sorted_by_start(s),
    ensures
        sorted_by_start(merge_spec(s).0),
        forall|k: int| 0 <= k < merge_spec(s).0.len() - 1 ==> !continues(
            #[trigger] merge_spec(s).0[k],
            merge_spec(s).0[k + 1],
        ),
        s.len() > 0 ==> forall|k: int|
            0 <= k < merge_spec(s).0.len() ==> (#[trigger] merge_spec(s).0[k]).physical_start
                <= s.last().physical_start,
    decreases s.len(),
{
    if s.len() > 0 {
        let p = s.drop_last();
        assert(sorted_by_start(p)) by {
            assert forall|i: int, j: int| 0 <= i <= j < p.len() implies #[trigger] p[i].physical_start
                <= #[trigger] p[j].physical_start by {
                assert(p[i] == s[i] && p[j] == s[j]);
            }
        }
        lemma_merge_sorted_and_maximal(p);
        let (m, stopped) = merge_spec(p);
        let d = s.last();
        if p.len() > 0 {
            assert(p.last().physical_start <= d.physical_start) by {
                assert(p.last() == s[s.len() - 2]);
            }
        }
        assert(forall|k: int| 0 <= k < m.len() ==> (#[trigger] m[k]).physical_start <= d.physical_start);
        if stopped {
        } else if m.len() > 0 && continues(m.last(), d) {
            let m2 = m.update(m.len() - 1, extended(m.last(), d));
            assert forall|i: int, j: int| 0 <= i <= j < m2.len() implies #[trigger] m2[i].physical_start
                <= #[trigger] m2[j].physical_start by {
                assert(m2[i].physical_start == m[i].physical_start);
                assert(m2[j].physical_start == m[j].physical_start);
            }
            assert forall|k: int| 0 <= k < m2.len() - 1 implies !continues(#[trigger] m2[k], m2[k + 1]) by {
                assert(m2[k] == m[k]);
                assert(m2[k + 1].physical_start == m[k + 1].physical_start);
                assert(m2[k + 1].name == m[k + 1].name);
            }
        } else if m.len() < MAP_CAPACITY {
            let m2 = m.push(d);
            assert forall|i: int, j: int| 0 <= i <= j < m2.len() implies #[trigger] m2[i].physical_start
                <= #[trigger] m2[j].physical_start by {
                if j == m2.len() - 1 && i < j {
                    assert(m2[i] == m[i]);
                } else if j < m2.len() - 1 {
                    assert(m2[i] == m[i] && m2[j] == m[j]);
                }
            }
            assert forall|k: int| 0 <= k < m2.len() - 1 implies !continues(#[trigger] m2[k], m2[k + 1]) by {
                if k + 1 < m.len() {
                    assert(m2[k] == m[k] && m2[k + 1] == m[k + 1]);
                } else {
                    assert(m2[k] == m.last());
                }
            }
        }
    }
}

/// What `merge_contiguous_with_same_name` returns is ordered by start
/// address, and no descriptor in it continues the one before it.
pub proof fn lemma_merged_list_sorted_and_maximal(s: Seq<MemoryDescriptor>)
    ensures
        sorted_by_start(merge_spec(sort_by_start_spec(s)).0),
        forall|k: int|
            0 <= k < merge_spec(sort_by_start_spec(s)).0.len() - 1 ==> !continues(
                #[trigger] merge_spec(sort_by_start_spec(s)).0[k],
                merge_spec(sort_by_start_spec(s)).0[k + 1],
            ),
{
    lemma_sort_by_start_sorted(s);
    lemma_merge_sorted_and_maximal(sort_by_start_spec(s));
}

/// Sorts `list` by start address (stably) and merges every run of descriptors
/// that carry the same name and follow each other without a gap. At most 32
/// descriptors come out; from the first one that finds no room on, the rest
/// is dropped.
pub fn merge_contiguous_with_same_name(list: heapless::Vec<MemoryDescriptor, 32>) -> (r:
    heapless::Vec<MemoryDescriptor, 32>)
    requires
        forall|i: int|
            0 <= i < descriptors32(list).len() ==> ends_in_range(#[trigger] descriptors32(list)[i]),
    ensures
        descriptors32(r) == merge_spec(sort_by_start_spec(descriptors32(list))).0,
{
    let items = descriptors32_as_slice(&list);
    if items.len() == 0 {
        assert(merge_spec(sort_by_start_spec(descriptors32(list))).0 =~= Seq::<
            MemoryDescriptor,
        >::empty());
        return list;
    }
    let sorted = sort_by_start(items);
    proof {
        lemma_sort_keeps_items(items@);
        assert forall|i: int| 0 <= i < sorted@.len() implies ends_in_range(#[trigger] sorted@[i]) by {
            let x = sorted@[i];
            let k = choose|k: int| 0 <= k < items@.len() && items@[k] == x;
            assert(ends_in_range(items@[k]));
        }
    }
    let mut merged = descriptors32_new();
    let mut i: usize = 0;
    assert(sorted@.take(0) =~= Seq::<MemoryDescriptor>::empty());
    while i < sorted.len()
        invariant
            0 <= i <= sorted.len(),
            forall|j: int| 0 <= j < sorted@.len() ==> ends_in_range(#[trigger] sorted@[j]),
            merge_spec(sorted@.take(i as int)) == (descriptors32(merged), false),
            sorted@ == sort_by_start_spec(descriptors32(list)),
        decreases sorted.len() - i,
    {
        let desc = sorted[i];
        proof {
            assert(sorted@.take(i + 1).drop_last() == sorted@.take(i as int));
            assert(sorted@.take(i + 1).last() == desc);
            lemma_merge_ends(sorted@.take(i as int));
        }
        let cur = descriptors32_as_slice(&merged);
        if cur.len() > 0 {
            let last = cur[cur.len() - 1];
            assert(ends_in_range(descriptors32(merged)[cur.len() - 1]));
            let last_end = last.physical_start + last.size_in_bytes;
            if same_name(last.name, desc.name) && last_end == desc.physical_start {
                let ghost before = descriptors32(merged);
                let _ = descriptors32_pop(&mut merged);
                let grown = MemoryDescriptor {
                    size_in_bytes: last.size_in_bytes + desc.size_in_bytes,
                    ..last
                };
                let _ = descriptors32_push(&mut merged, grown);
                assert(descriptors32(merged) =~= before.update(before.len() - 1, extended(last, desc)));
                i = i + 1;
                continue;
            }
        }
        assert(descriptors32(merged).len() > 0 ==> !continues(descriptors32(merged).last(), desc));
        if descriptors32_push(&mut merged, desc).is_err() {
            proof {
                assert(merge_spec(sorted@.take(i + 1)).1);
                lemma_merge_stopped_stays(sorted@, i + 1);
                assert(merge_spec(sorted@).0 == descriptors32(merged));
            }
            assert(sorted@.take(sorted.len() as int) == sorted@);
            return merged;
        }
        i = i + 1;
    }
    assert(sorted@.take(sorted.len() as int) == sorted@);
    merged
}

proof fn lemma_merge_stopped_stays(s: Seq<MemoryDescriptor>, k: int)
    requires
        0 <= k <= s.len(),
        merge_spec(s.take(k)).1,
    ensures
        merge_spec(s) == merge_spec(s.take(k)),
    decreases s.len() - k,
{
    if k < s.len() {
        assert(s.take(k + 1).drop_last() == s.take(k));
        lemma_merge_stopped_stays(s, k + 1);
    } else {
        assert(s.take(k) == s);
    }
}

/// The registered RAM regions and reserved regions of the boot memory map.
pub struct MemoryRegistry {
    pub ram: heapless::Vec<MemoryDescriptor, 32>,
    pub reserved: heapless::Vec<MemoryDescriptor, 32>,
}

impl MemoryRegistry {
    /// A registry with no region.
    pub fn new() -> (r: Self)
        ensures
            descriptors32(r.ram) == Seq::<MemoryDescriptor>::empty(),
            descriptors32(r.reserved) == Seq::<MemoryDescriptor>::empty(),
    {
        MemoryRegistry { ram: descriptors32_new(), reserved: descriptors32_new() }
    }

    /// Records a region: free memory joins the RAM list, anything else the
    /// reserved list. A region that finds its list full (32 regions) is
    /// dropped, and `false` is returned.
    pub fn add_memory_descriptor(&mut self, desc: MemoryDescriptor) -> (added: bool)
        ensures
            desc.memory_type == MemoryType::Free ==> {
                &&& descriptors32(final(self).reserved) == descriptors32(old(self).reserved)
                &&& added == (descriptors32(old(self).ram).len() < MAP_CAPACITY)
                &&& descriptors32(final(self).ram) == if added {
                    descriptors32(old(self).ram).push(desc)
                } else {
                    descriptors32(old(self).ram)
                }
            },
            desc.memory_type != MemoryType::Free ==> {
                &&& descriptors32(final(self).ram) == descriptors32(old(self).ram)
                &&& added == (descriptors32(old(self).reserved).len() < MAP_CAPACITY)
                &&& descriptors32(final(self).reserved) == if added {
                    descriptors32(old(self).reserved).push(desc)
                } else {
                    descriptors32(old(self).reserved)
                }
            },
    {
        match desc.memory_type {
            MemoryType::Free => descriptors32_push(&mut self.ram, desc).is_ok(),
            _ => descriptors32_push(&mut self.reserved, desc).is_ok(),
        }
    }
}

/// The reserved regions of the memory map: the registered ones, the kernel
/// image and the region the early allocator handed out, merged by name.
/// Regions that find no room in the list of 32 are left out.
pub fn rsv_memories(
    reserved: heapless::Vec<MemoryDescriptor, 32>,
    kernel_range: core::ops::Range<usize>,
    allocated: MemoryDescriptor,
) -> (r: heapless::Vec<MemoryDescriptor, 32>)
    requires
        kernel_range.start <= kernel_range.end,
        ends_in_range(allocated),
        forall|i: int|
            0 <= i < descriptors32(reserved).len() ==> ends_in_range(
                #[trigger] descriptors32(reserved)[i],
            ),
    ensures
        descriptors32(r) == merge_spec(
            sort_by_start_spec(
                push_if_room(
                    push_if_room(
                        descriptors32(reserved),
                        MemoryDescriptor {
                            name: "Kernel",
                            physical_start: kernel_range.start,
                            size_in_bytes: (kernel_range.end - kernel_range.start) as usize,
                            memory_type: MemoryType::Reserved,
                        },
                    ),
                    allocated,
                ),
            ),
        ).0,
{
    let mut rsv = reserved;
    let kernel = MemoryDescriptor {
        name: "Kernel",
        physical_start: kernel_range.start,
        size_in_bytes: kernel_range.end - kernel_range.start,
        memory_type: MemoryType::Reserved,
    };
    let _ = descriptors32_push(&mut rsv, kernel);
    let _ = descriptors32_push(&mut rsv, allocated);
    assert forall|i: int| 0 <= i < descriptors32(rsv).len() implies ends_in_range(
        #[trigger] descriptors32(rsv)[i],
    ) by {
        if i < descriptors32(reserved).len() {
            assert(descriptors32(rsv)[i] == descriptors32(reserved)[i]);
        }
    }
    merge_contiguous_with_same_name(rsv)
}

/// `s` with `x` appended when it holds fewer than 32 items.
pub open spec fn push_if_room(s: Seq<MemoryDescriptor>, x: MemoryDescriptor) -> Seq<MemoryDescriptor> {
    if s.len() < MAP_CAPACITY {
        s.push(x)
    } else {
        s
    }
}

/// The page-aligned region that covers `size` bytes from `paddr`: its start
/// and its length.
pub fn ioremap(paddr: usize, size: usize, page_size: usize) -> (r: (usize, usize))
    requires
        page_size > 0,
        paddr + size <= usize::MAX,
        align_up_ok(paddr + size, page_size as int),
    ensures
        r.0 == align_down_spec(paddr as int, page_size as int),
        r.0 + r.1 == align_up_spec(paddr + size, page_size as int),
{
    let end = paddr + size;
    let start = align_down(paddr, page_size);
    proof {
        crate::align::lemma_align_bounds(paddr as int, page_size as int);
        crate::align::lemma_align_bounds(end as int, page_size as int);
    }
    let size = align_up(end, page_size) - start;
    (start, size)
}

/// How addresses are translated: identity until the MMU is on, and through the
/// kernel's linear map afterwards.
#[derive(Clone, Copy, Debug)]
pub struct AddressSpace {
    pub mmu_enabled: bool,
    pub linear_offset: usize,
}

impl AddressSpace {
    /// The virtual address of physical address `paddr`: the same address
    /// until the MMU is on, and `linear_offset` higher after.
    pub open spec fn phys_to_virt_spec(self, paddr: int) -> int {
        if self.mmu_enabled {
            paddr + self.linear_offset
        } else {
            paddr
        }
    }

    /// The virtual address of physical address `paddr`.
    pub fn phys_to_virt(&self, paddr: usize) -> (v: usize)
        requires
            self.mmu_enabled ==> paddr + self.linear_offset <= usize::MAX,
        ensures
            v == if self.mmu_enabled {
                paddr + self.linear_offset
            } else {
                paddr as int
            },
    {
        if self.mmu_enabled {
            paddr + self.linear_offset
        } else {
            paddr
        }
    }

    /// The physical address of virtual address `vaddr`.
    pub fn virt_to_phys(&self, vaddr: usize) -> (p: usize)
        requires
            self.mmu_enabled ==> vaddr >= self.linear_offset,
        ensures
            p == if self.mmu_enabled {
                vaddr - self.linear_offset
            } else {
                vaddr as int
            },
    {
        if self.mmu_enabled {
            vaddr - self.linear_offset
        } else {
            vaddr
        }
    }

    /// Records that the MMU is on.
    pub fn set_mmu_enabled(&mut self)
        ensures
            final(self).mmu_enabled,
            final(self).linear_offset == old(self).linear_offset,
    {
        self.mmu_enabled = true;
    }

    /// Whether the MMU is on.
    pub fn is_mmu_enabled(&self) -> (b: bool)
        ensures
            b == self.mmu_enabled,
    {
        self.mmu_enabled
    }

    /// The physical range of the kernel image whose virtual range is `code`.
    pub fn kernel_range(&self, code: core::ops::Range<usize>) -> (r: core::ops::Range<usize>)
        requires
            self.mmu_enabled ==> code.start >= self.linear_offset && code.end >= self.linear_offset,
        ensures
            r.start == (if self.mmu_enabled { code.start - self.linear_offset } else { code.start as int }),
            r.end == (if self.mmu_enabled { code.end - self.linear_offset } else { code.end as int }),
    {
        let start = self.virt_to_phys(code.start);
        let end = self.virt_to_phys(code.end);
        start..end
    }
}

/// Physical address translated for the fixed I/O map: identity until the MMU
/// is on, and through the linear map afterwards.
pub fn fixmap_io(space: &AddressSpace, paddr: usize) -> (v: usize)
    requires
        space.mmu_enabled ==> paddr + space.linear_offset <= usize::MAX,
    ensures
        v == if space.mmu_enabled {
            paddr + space.linear_offset
        } else {
            paddr as int
        },
{
    space.phys_to_virt(paddr)
}


/// Whether the free region `d` can be handed to the heap: its end fits in a
/// `usize` and rounding its start up to a page does not pass its end rounded
/// down.
pub open spec fn heap_region_ok(d: MemoryDescriptor, page_size: int) -> bool {
    &&& d.end_spec() <= usize::MAX
    &&& align_up_ok(d.physical_start as int, page_size)
    &&& align_up_spec(d.physical_start as int, page_size) <= align_down_spec(d.end_spec(), page_size)
}

/// The part of the free region `d` that the heap receives: whole pages, as
/// a start and a size.
pub open spec fn heap_region_spec(d: MemoryDescriptor, page_size: int) -> (usize, usize) {
    let start = align_up_spec(d.physical_start as int, page_size);
    let end = align_down_spec(d.end_spec(), page_size);
    (start as usize, (end - start) as usize)
}

/// What the heap receives from `regions`, in order: the whole pages of each
/// free region that holds at least one.
pub open spec fn heap_regions_spec(regions: Seq<MemoryDescriptor>, page_size: int) -> Seq<(usize, usize)>
    decreases regions.len(),
{
    if regions.len() == 0 {
        Seq::empty()
    } else {
        let prev = heap_regions_spec(regions.drop_last(), page_size);
        let d = regions.last();
        if d.memory_type == MemoryType::Free && heap_region_spec(d, page_size).1 != 0 {
            prev.push(heap_region_spec(d, page_size))
        } else {
            prev
        }
    }
}

/// Every range the heap receives is made of whole pages, is not empty, and
/// lies inside one of the free regions it was taken from.
pub proof fn lemma_heap_regions_within(regions: Seq<MemoryDescriptor>, page_size: int, k: int)
    requires
        page_size > 0,
        forall|i: int|
            0 <= i < regions.len() && (#[trigger] regions[i]).memory_type == MemoryType::Free
                ==> heap_region_ok(regions[i], page_size),
        0 <= k < heap_regions_spec(regions, page_size).len(),
    ensures
        ({
            let (start, size) = heap_regions_spec(regions, page_size)[k];
            &&& (start as int) % page_size == 0
            &&& (size as int) % page_size == 0
            &&& size > 0
            &&& exists|i: int|
                0 <= i < regions.len() && (#[trigger] regions[i]).memory_type == MemoryType::Free
                    && regions[i].physical_start <= start && start + size <= regions[i].end_spec()
        }),
    decreases regions.len(),
{
    let prev = heap_regions_spec(regions.drop_last(), page_size);
    let d = regions.last();
    assert forall|i: int|
        0 <= i < regions.drop_last().len() && (#[trigger] regions.drop_last()[i]).memory_type
            == MemoryType::Free implies heap_region_ok(regions.drop_last()[i], page_size) by {
        assert(regions.drop_last()[i] == regions[i]);
    }
    if k < prev.len() {
        lemma_heap_regions_within(regions.drop_last(), page_size, k);
        let (start, size) = prev[k];
        let i = choose|i: int|
            0 <= i < regions.drop_last().len() && (#[trigger] regions.drop_last()[i]).memory_type
                == MemoryType::Free && regions.drop_last()[i].physical_start <= start && start + size
                <= regions.drop_last()[i].end_spec();
        assert(regions[i] == regions.drop_last()[i]);
    } else {
        let n = regions.len() - 1;
        assert(regions[n] == d);
        assert(heap_region_ok(d, page_size));
        crate::align::lemma_align_bounds(d.physical_start as int, page_size);
        crate::align::lemma_align_bounds(d.end_spec(), page_size);
        let a = align_up_spec(d.physical_start as int, page_size);
        let b = align_down_spec(d.end_spec(), page_size);
        vstd::arithmetic::div_mod::lemma_sub_mod_noop(b, a, page_size);
        assert((b - a) % page_size == 0) by {
            vstd::arithmetic::div_mod::lemma_mod_self_0(page_size);
            vstd::arithmetic::div_mod::lemma_small_mod(0, page_size as nat);
        }
    }
}

/// The memory the kernel heap is set up with: for each free region, the
/// pages that lie wholly inside it (start rounded up, end rounded down to
/// `page_size`), as a start and a size; regions without a whole page are
/// skipped.
pub fn setup_allocator(free: &[MemoryDescriptor], page_size: usize) -> (r: Vec<(usize, usize)>)
    requires
        page_size > 0,
        forall|i: int|
            0 <= i < free@.len() && (#[trigger] free@[i]).memory_type == MemoryType::Free
                ==> heap_region_ok(free@[i], page_size as int),
    ensures
        r@ == heap_regions_spec(free@, page_size as int),
{
    let mut r: Vec<(usize, usize)> = Vec::new();
    let mut i: usize = 0;
    while i < free.len()
        invariant
            0 <= i <= free.len(),
            page_size > 0,
            forall|j: int|
                0 <= j < free@.len() && (#[trigger] free@[j]).memory_type == MemoryType::Free
                    ==> heap_region_ok(free@[j], page_size as int),
            r@ == heap_regions_spec(free@.subrange(0, i as int), page_size as int),
        decreases free.len() - i,
    {
        let d = free[i];
        assert(free@.subrange(0, i + 1).drop_last() =~= free@.subrange(0, i as int));
        if d.memory_type == MemoryType::Free {
            assert(heap_region_ok(free@[i as int], page_size as int));
            proof {
                crate::align::lemma_align_bounds(d.physical_start as int, page_size as int);
                crate::align::lemma_align_bounds(d.end_spec(), page_size as int);
            }
            let start = align_up(d.physical_start, page_size);
            let end = align_down(d.physical_start + d.size_in_bytes, page_size);
            let size = end - start;
            if size != 0 {
                r.push((start, size));
            }
        }
        i = i + 1;
    }
    assert(free@.subrange(0, free.len() as int) =~= free@);
    r
}

} // verus!
