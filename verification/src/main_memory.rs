//! Selection of the main memory region among the regions reported at boot.
//!
//! Every RAM region has the non-RAM regions cut out of it; of the pieces that
//! remain, the one that starts lowest among those of at least 16 MiB becomes
//! the main memory. The work lists have fixed capacities (32 regions of each
//! kind, 32 pieces per RAM region, 64 pieces in all); running out of room
//! makes the search fail.
use crate::mmu::{BootMemoryKind, BootRegion, PhysCRange};
use vstd::prelude::*;

verus! {

/// Smallest size accepted for the main memory region.
pub const MIN_MAIN_MEMORY_SIZE: usize = 16777216;

/// Capacity of the region lists and of the pieces of one RAM region.
pub const REGION_CAPACITY: usize = 32;

/// Capacity of the list of all remaining pieces.
pub const AVAILABLE_CAPACITY: usize = 64;

/// What a `heapless::Vec<BootRegion, 32>` holds, in order.
pub uninterp spec fn boot_regions32(v: heapless::Vec<BootRegion, 32>) -> Seq<BootRegion>;

/// What a `heapless::Vec<PhysCRange, 32>` holds, in order.
pub uninterp spec fn ranges32(v: heapless::Vec<PhysCRange, 32>) -> Seq<PhysCRange>;

/// What a `heapless::Vec<PhysCRange, 64>` holds, in order.
pub uninterp spec fn ranges64(v: heapless::Vec<PhysCRange, 64>) -> Seq<PhysCRange>;

/// `heapless::Vec::new`: an empty vector.
#[verifier::external_body]
fn boot_regions32_new() -> (v: heapless::Vec<BootRegion, 32>)
    ensures
        boot_regions32(v) == Seq::<BootRegion>::empty(),
{
    heapless::Vec::new()
}

/// `heapless::Vec::push`: appends when fewer than 32 items are held, and
/// otherwise hands the item back and leaves the vector as it was.
#[verifier::external_body]
fn boot_regions32_push(v: &mut heapless::Vec<BootRegion, 32>, x: BootRegion) -> (r: Result<
    (),
    BootRegion,
>)
    ensures
        boot_regions32(*old(v)).len() < 32 ==> (r is Ok && boot_regions32(*final(v))
            == boot_regions32(*old(v)).push(x)),
        boot_regions32(*old(v)).len() >= 32 ==> (r is Err && boot_regions32(*final(v))
            == boot_regions32(*old(v))),
{
    v.push(x)
}

/// `heapless::Vec::as_slice`: the items held, in order.
#[verifier::external_body]
fn boot_regions32_as_slice(v: &heapless::Vec<BootRegion, 32>) -> (s: &[BootRegion])
    ensures
        s@ == boot_regions32(*v),
{
    v.as_slice()
}

/// `heapless::Vec::new`: an empty vector.
#[verifier::external_body]
fn ranges32_new() -> (v: heapless::Vec<PhysCRange, 32>)
    ensures
        ranges32(v) == Seq::<PhysCRange>::empty(),
{
    heapless::Vec::new()
}

/// `heapless::Vec::push`: appends when fewer than 32 items are held, and
/// otherwise hands the item back and leaves the vector as it was.
#[verifier::external_body]
fn ranges32_push(v: &mut heapless::Vec<PhysCRange, 32>, x: PhysCRange) -> (r: Result<
    (),
    PhysCRange,
>)
    ensures
        ranges32(*old(v)).len() < 32 ==> (r is Ok && ranges32(*final(v)) == ranges32(
            *old(v),
        ).push(x)),
        ranges32(*old(v)).len() >= 32 ==> (r is Err && ranges32(*final(v)) == ranges32(
            *old(v),
        )),
{
    v.push(x)
}

/// `heapless::Vec::as_slice`: the items held, in order.
#[verifier::external_body]
fn ranges32_as_slice(v: &heapless::Vec<PhysCRange, 32>) -> (s: &[PhysCRange])
    ensures
        s@ == ranges32(*v),
{
    v.as_slice()
}

/// `heapless::Vec::new`: an empty vector.
#[verifier::external_body]
fn ranges64_new() -> (v: heapless::Vec<PhysCRange, 64>)
    ensures
        ranges64(v) == Seq::<PhysCRange>::empty(),
{
    heapless::Vec::new()
}

/// `heapless::Vec::push`: appends when fewer than 64 items are held, and
/// otherwise hands the item back and leaves the vector as it was.
#[verifier::external_body]
fn ranges64_push(v: &mut heapless::Vec<PhysCRange, 64>, x: PhysCRange) -> (r: Result<
    (),
    PhysCRange,
>)
    ensures
        ranges64(*old(v)).len() < 64 ==> (r is Ok && ranges64(*final(v)) == ranges64(
            *old(v),
        ).push(x)),
        ranges64(*old(v)).len() >= 64 ==> (r is Err && ranges64(*final(v)) == ranges64(
            *old(v),
        )),
{
    v.push(x)
}

/// `heapless::Vec::as_slice`: the items held, in order.
#[verifier::external_body]
pub(crate) fn ranges64_as_slice(v: &heapless::Vec<PhysCRange, 64>) -> (s: &[PhysCRange])
    ensures
        s@ == ranges64(*v),
{
    v.as_slice()
}

/// Whether a region is RAM.
pub open spec fn is_ram(r: BootRegion) -> bool {
    r.kind == BootMemoryKind::Ram
}

/// Whether a region is anything but RAM.
pub open spec fn is_not_ram(r: BootRegion) -> bool {
    r.kind != BootMemoryKind::Ram
}

/// The RAM regions of `s`, in order.
pub open spec fn rams_of(s: Seq<BootRegion>) -> Seq<BootRegion> {
    s.filter(|r: BootRegion| is_ram(r))
}

/// The regions of `s` that are not RAM, in order.
pub open spec fn others_of(s: Seq<BootRegion>) -> Seq<BootRegion> {
    s.filter(|r: BootRegion| is_not_ram(r))
}

/// The address range of a region.
pub open spec fn range_of(r: BootRegion) -> (usize, usize) {
    r.range@
}

/// The larger of two addresses.
pub open spec fn max_addr(a: usize, b: usize) -> usize {
    if a >= b {
        a
    } else {
        b
    }
}

/// The smaller of two addresses.
pub open spec fn min_addr(a: usize, b: usize) -> usize {
    if a <= b {
        a
    } else {
        b
    }
}

/// What remains of the range `r` once `hole` is cut out of it: `r` itself when
/// they do not overlap, and otherwise the parts before and after the overlap
/// that are not empty.
pub open spec fn cut_spec(r: (usize, usize), hole: (usize, usize)) -> Seq<(usize, usize)> {
    let os = max_addr(r.0, hole.0);
    let oe = min_addr(r.1, hole.1);
    if os < oe {
        (if r.0 < os {
            seq![(r.0, os)]
        } else {
            Seq::empty()
        }) + (if oe < r.1 {
            seq![(oe, r.1)]
        } else {
            Seq::empty()
        })
    } else {
        seq![r]
    }
}

/// The pieces left of every range of `s`, in order, once `hole` is cut out.
pub open spec fn cut_all_spec(s: Seq<(usize, usize)>, hole: (usize, usize)) -> Seq<(usize, usize)>
    decreases s.len(),
{
    if s.len() == 0 {
        Seq::empty()
    } else {
        cut_all_spec(s.drop_last(), hole) + cut_spec(s.last(), hole)
    }
}

/// The pieces left of `init` once every hole is cut out in turn; `None` when
/// more than 32 pieces are left after some hole.
pub open spec fn subtract_spec(init: Seq<(usize, usize)>, holes: Seq<(usize, usize)>) -> Option<
    Seq<(usize, usize)>,
>
    decreases holes.len(),
{
    if holes.len() == 0 {
        Some(init)
    } else {
        match subtract_spec(init, holes.drop_last()) {
            None => None,
            Some(cur) => {
                let next = cut_all_spec(cur, holes.last());
                if next.len() > REGION_CAPACITY {
                    None
                } else {
                    Some(next)
                }
            },
        }
    }
}

/// The pieces left of all RAM ranges, RAM range by RAM range; `None` when the
/// pieces of some RAM range did not fit.
pub open spec fn available_spec(rams: Seq<(usize, usize)>, holes: Seq<(usize, usize)>) -> Option<
    Seq<(usize, usize)>,
>
    decreases rams.len(),
{
    if rams.len() == 0 {
        Some(Seq::empty())
    } else {
        match (available_spec(rams.drop_last(), holes), subtract_spec(seq![rams.last()], holes)) {
            (Some(a), Some(b)) => Some(a + b),
            _ => None,
        }
    }
}

/// One step of the selection: a range of at least 16 MiB replaces the best so
/// far when there is none or when it starts strictly lower.
pub open spec fn select_step(best: Option<(usize, usize)>, r: (usize, usize)) -> Option<
    (usize, usize),
> {
    if r.1 - r.0 >= MIN_MAIN_MEMORY_SIZE {
        match best {
            None => Some(r),
            Some(b) => if r.0 < b.0 {
                Some(r)
            } else {
                best
            },
        }
    } else {
        best
    }
}

/// The first range among those of at least 16 MiB that start lowest.
pub open spec fn select_spec(s: Seq<(usize, usize)>) -> Option<(usize, usize)>
    decreases s.len(),
{
    if s.len() == 0 {
        None
    } else {
        select_step(select_spec(s.drop_last()), s.last())
    }
}

/// The range chosen as main memory among `regions`, or `None` when the search fails.
pub open spec fn main_memory_range_spec(regions: Seq<BootRegion>) -> Option<(usize, usize)> {
    let rams = rams_of(regions);
    let others = others_of(regions);
    if rams.len() > REGION_CAPACITY || others.len() > REGION_CAPACITY {
        None
    } else {
        match available_spec(rams.map_values(|r: BootRegion| range_of(r)), others.map_values(|r: BootRegion| range_of(r))) {
            None => None,
            Some(a) => if a.len() > AVAILABLE_CAPACITY {
                None
            } else {
                select_spec(a)
            },
        }
    }
}

/// Whether the range `r` lies within the range `q`.
pub open spec fn inside(r: (usize, usize), q: (usize, usize)) -> bool {
    q.0 <= r.0 && r.1 <= q.1
}

/// Whether the ranges `r` and `h` share no address.
pub open spec fn apart(r: (usize, usize), h: (usize, usize)) -> bool {
    max_addr(r.0, h.0) >= min_addr(r.1, h.1)
}

/// Whether the range `p` lies within one of the ranges of `s`.
pub open spec fn within_one(p: (usize, usize), s: Seq<(usize, usize)>) -> bool {
    exists|j: int| 0 <= j < s.len() && #[trigger] inside(p, s[j])
}

/// Whether the range `p` shares no address with any range of `holes`.
pub open spec fn apart_all(p: (usize, usize), holes: Seq<(usize, usize)>) -> bool {
    forall|k: int| 0 <= k < holes.len() ==> #[trigger] apart(p, holes[k])
}

proof fn lemma_inside_apart(p: (usize, usize), r: (usize, usize), h: (usize, usize))
    requires
        inside(p, r),
        apart(r, h),
    ensures
        apart(p, h),
{
}

proof fn lemma_cut_pieces(r: (usize, usize), hole: (usize, usize))
    ensures
        forall|i: int|
            0 <= i < cut_spec(r, hole).len() ==> inside(#[trigger] cut_spec(r, hole)[i], r) && apart(
                cut_spec(r, hole)[i],
                hole,
            ),
{
}

proof fn lemma_cut_all_pieces(s: Seq<(usize, usize)>, hole: (usize, usize))
    ensures
        forall|i: int|
            0 <= i < cut_all_spec(s, hole).len() ==> apart(#[trigger] cut_all_spec(s, hole)[i], hole) && exists|j: int|
                0 <= j < s.len() && #[trigger] inside(cut_all_spec(s, hole)[i], s[j]),
    decreases s.len(),
{
    if s.len() > 0 {
        let d = s.drop_last();
        lemma_cut_all_pieces(d, hole);
        lemma_cut_pieces(s.last(), hole);
        let a = cut_all_spec(d, hole);
        let b = cut_spec(s.last(), hole);
        assert forall|i: int| 0 <= i < (a + b).len() implies apart(#[trigger] (a + b)[i], hole) && exists|j: int|
            0 <= j < s.len() && #[trigger] inside((a + b)[i], s[j]) by {
            if i < a.len() {
                assert((a + b)[i] == a[i]);
                let j = choose|j: int| 0 <= j < d.len() && #[trigger] inside(a[i], d[j]);
                assert(s[j] == d[j]);
            } else {
                assert((a + b)[i] == b[i - a.len()]);
                assert(inside((a + b)[i], s[s.len() - 1]));
            }
        }
    }
}

proof fn lemma_subtract_pieces(init: Seq<(usize, usize)>, holes: Seq<(usize, usize)>)
    ensures
        subtract_spec(init, holes) matches Some(out) ==> forall|i: int|
            0 <= i < out.len() ==> within_one(#[trigger] out[i], init) && apart_all(out[i], holes),
    decreases holes.len(),
{
    if holes.len() == 0 {
        assert forall|i: int| 0 <= i < init.len() implies within_one(#[trigger] init[i], init) && apart_all(
            init[i],
            holes,
        ) by {
            assert(inside(init[i], init[i]));
        }
    } else {
        let hd = holes.drop_last();
        lemma_subtract_pieces(init, hd);
        if let Some(cur) = subtract_spec(init, hd) {
            let next = cut_all_spec(cur, holes.last());
            lemma_cut_all_pieces(cur, holes.last());
            assert forall|i: int| 0 <= i < next.len() implies within_one(#[trigger] next[i], init) && apart_all(
                next[i],
                holes,
            ) by {
                let c = choose|c: int| 0 <= c < cur.len() && #[trigger] inside(next[i], cur[c]);
                assert(within_one(cur[c], init) && apart_all(cur[c], hd));
                let j = choose|j: int| 0 <= j < init.len() && #[trigger] inside(cur[c], init[j]);
                assert(inside(next[i], init[j]));
                assert forall|k: int| 0 <= k < holes.len() implies #[trigger] apart(next[i], holes[k]) by {
                    if k < hd.len() {
                        assert(hd[k] == holes[k]);
                        assert(apart(cur[c], hd[k]));
                        lemma_inside_apart(next[i], cur[c], holes[k]);
                    } else {
                        assert(holes[k] == holes.last());
                    }
                }
            }
        }
    }
}

proof fn lemma_available_pieces(rams: Seq<(usize, usize)>, holes: Seq<(usize, usize)>)
    ensures
        available_spec(rams, holes) matches Some(out) ==> forall|i: int|
            0 <= i < out.len() ==> within_one(#[trigger] out[i], rams) && apart_all(out[i], holes),
    decreases rams.len(),
{
    if rams.len() > 0 {
        let d = rams.drop_last();
        lemma_available_pieces(d, holes);
        lemma_subtract_pieces(seq![rams.last()], holes);
        if let (Some(a), Some(b)) = (available_spec(d, holes), subtract_spec(seq![rams.last()], holes)) {
            let out = a + b;
            assert forall|i: int| 0 <= i < out.len() implies within_one(#[trigger] out[i], rams) && apart_all(
                out[i],
                holes,
            ) by {
                if i < a.len() {
                    assert(out[i] == a[i]);
                    assert(within_one(a[i], d));
                    let j = choose|j: int| 0 <= j < d.len() && #[trigger] inside(a[i], d[j]);
                    assert(rams[j] == d[j]);
                } else {
                    assert(out[i] == b[i - a.len()]);
                    assert(within_one(b[i - a.len()], seq![rams.last()]));
                    let j = choose|j: int| 0 <= j < 1 && #[trigger] inside(b[i - a.len()], seq![rams.last()][j]);
                    assert(seq![rams.last()][j] == rams[rams.len() - 1]);
                }
            }
        }
    }
}

proof fn lemma_select(s: Seq<(usize, usize)>)
    ensures
        select_spec(s) matches Some(m) ==> {
            &&& s.contains(m)
            &&& m.1 - m.0 >= MIN_MAIN_MEMORY_SIZE
            &&& forall|i: int| 0 <= i < s.len() && s[i].1 - s[i].0 >= MIN_MAIN_MEMORY_SIZE ==> m.0 <= (#[trigger] s[i]).0
        },
        select_spec(s) is None ==> forall|i: int| 0 <= i < s.len() ==> (#[trigger] s[i]).1 - s[i].0 < MIN_MAIN_MEMORY_SIZE,
    decreases s.len(),
{
    if s.len() > 0 {
        let d = s.drop_last();
        lemma_select(d);
        if let Some(m) = select_spec(s) {
            if select_spec(d) == Some(m) {
                let j = choose|j: int| 0 <= j < d.len() && d[j] == m;
                assert(s[j] == d[j]);
            } else {
                assert(m == s.last());
                assert(s[s.len() - 1] == m);
            }
            assert forall|i: int| 0 <= i < s.len() && s[i].1 - s[i].0 >= MIN_MAIN_MEMORY_SIZE implies m.0 <= (
            #[trigger] s[i]).0 by {
                if i < d.len() {
                    assert(s[i] == d[i]);
                }
            }
        } else {
            assert forall|i: int| 0 <= i < s.len() implies (#[trigger] s[i]).1 - s[i].0 < MIN_MAIN_MEMORY_SIZE by {
                if i < d.len() {
                    assert(s[i] == d[i]);
                }
            }
        }
    }
}

proof fn lemma_cut_keeps_interval(r: (usize, usize), hole: (usize, usize), iv: (usize, usize))
    requires
        iv.0 < iv.1,
        inside(iv, r),
        apart(iv, hole),
    ensures
        within_one(iv, cut_spec(r, hole)),
{
    let c = cut_spec(r, hole);
    let os = max_addr(r.0, hole.0);
    let oe = min_addr(r.1, hole.1);
    if os < oe {
        if iv.1 <= hole.0 {
            assert(c[0] == (r.0, os));
            assert(inside(iv, c[0]));
        } else {
            let k = if r.0 < os { 1int } else { 0int };
            assert(c[k] == (oe, r.1));
            assert(inside(iv, c[k]));
        }
    } else {
        assert(c[0] == r);
        assert(inside(iv, c[0]));
    }
}

proof fn lemma_cut_all_keeps_interval(s: Seq<(usize, usize)>, hole: (usize, usize), iv: (usize, usize))
    requires
        iv.0 < iv.1,
        within_one(iv, s),
        apart(iv, hole),
    ensures
        within_one(iv, cut_all_spec(s, hole)),
    decreases s.len(),
{
    let d = s.drop_last();
    let a = cut_all_spec(d, hole);
    let b = cut_spec(s.last(), hole);
    let j = choose|j: int| 0 <= j < s.len() && #[trigger] inside(iv, s[j]);
    if j < d.len() {
        assert(d[j] == s[j]);
        assert(within_one(iv, d));
        lemma_cut_all_keeps_interval(d, hole, iv);
        let k = choose|k: int| 0 <= k < a.len() && #[trigger] inside(iv, a[k]);
        assert((a + b)[k] == a[k]);
    } else {
        lemma_cut_keeps_interval(s.last(), hole, iv);
        let k = choose|k: int| 0 <= k < b.len() && #[trigger] inside(iv, b[k]);
        assert((a + b)[a.len() + k] == b[k]);
    }
    assert(cut_all_spec(s, hole) == a + b);
}

proof fn lemma_subtract_keeps_interval(init: Seq<(usize, usize)>, holes: Seq<(usize, usize)>, iv: (usize, usize))
    requires
        iv.0 < iv.1,
        within_one(iv, init),
        apart_all(iv, holes),
    ensures
        subtract_spec(init, holes) matches Some(out) ==> within_one(iv, out),
    decreases holes.len(),
{
    if holes.len() > 0 {
        let hd = holes.drop_last();
        assert forall|k: int| 0 <= k < hd.len() implies #[trigger] apart(iv, hd[k]) by {
            assert(hd[k] == holes[k]);
            assert(apart(iv, holes[k]));
        }
        lemma_subtract_keeps_interval(init, hd, iv);
        if let Some(cur) = subtract_spec(init, hd) {
            assert(apart(iv, holes[holes.len() - 1]));
            lemma_cut_all_keeps_interval(cur, holes.last(), iv);
        }
    }
}

proof fn lemma_available_keeps_interval(rams: Seq<(usize, usize)>, holes: Seq<(usize, usize)>, iv: (usize, usize))
    requires
        iv.0 < iv.1,
        within_one(iv, rams),
        apart_all(iv, holes),
    ensures
        available_spec(rams, holes) matches Some(out) ==> within_one(iv, out),
    decreases rams.len(),
{
    let d = rams.drop_last();
    let j = choose|j: int| 0 <= j < rams.len() && #[trigger] inside(iv, rams[j]);
    if let (Some(a), Some(b)) = (available_spec(d, holes), subtract_spec(seq![rams.last()], holes)) {
        if j < d.len() {
            assert(d[j] == rams[j]);
            assert(within_one(iv, d));
            lemma_available_keeps_interval(d, holes, iv);
            let k = choose|k: int| 0 <= k < a.len() && #[trigger] inside(iv, a[k]);
            assert((a + b)[k] == a[k]);
        } else {
            assert(seq![rams.last()][0] == rams[j]);
            assert(within_one(iv, seq![rams.last()]));
            lemma_subtract_keeps_interval(seq![rams.last()], holes, iv);
            let k = choose|k: int| 0 <= k < b.len() && #[trigger] inside(iv, b[k]);
            assert((a + b)[a.len() + k] == b[k]);
        }
    }
}

/// The pieces of RAM left once the holes are cut out cover every address
/// of a RAM range that lies in no hole: each such address, and each run of
/// such addresses, lies within one piece.
pub proof fn lemma_available_covers(rams: Seq<(usize, usize)>, holes: Seq<(usize, usize)>, iv: (usize, usize))
    requires
        iv.0 < iv.1,
        exists|j: int| 0 <= j < rams.len() && rams[j].0 <= iv.0 && iv.1 <= #[trigger] rams[j].1,
        forall|k: int| 0 <= k < holes.len() ==> iv.1 <= (#[trigger] holes[k]).0 || holes[k].1 <= iv.0 || holes[k].1
            <= holes[k].0,
    ensures
        available_spec(rams, holes) matches Some(out) ==> exists|p: int|
            0 <= p < out.len() && out[p].0 <= iv.0 && iv.1 <= #[trigger] out[p].1,
{
    let j = choose|j: int| 0 <= j < rams.len() && rams[j].0 <= iv.0 && iv.1 <= #[trigger] rams[j].1;
    assert(inside(iv, rams[j]));
    assert forall|k: int| 0 <= k < holes.len() implies #[trigger] apart(iv, holes[k]) by {
        assert(iv.1 <= holes[k].0 || holes[k].1 <= iv.0 || holes[k].1 <= holes[k].0);
    }
    lemma_available_keeps_interval(rams, holes, iv);
    if let Some(out) = available_spec(rams, holes) {
        let p = choose|p: int| 0 <= p < out.len() && #[trigger] inside(iv, out[p]);
        assert(out[p].0 <= iv.0 && iv.1 <= out[p].1);
    }
}

/// Whenever some RAM region holds a stretch of at least 16 MiB that meets
/// no other region, main memory is found (unless a work list runs out of
/// room), and it starts no higher than that stretch.
pub proof fn lemma_main_memory_found(regions: Seq<BootRegion>, start: usize, end: usize)
    requires
        end - start >= MIN_MAIN_MEMORY_SIZE,
        exists|j: int|
            0 <= j < rams_of(regions).len() && range_of(rams_of(regions)[j]).0 <= start && end <= #[trigger] range_of(
                rams_of(regions)[j],
            ).1,
        forall|k: int|
            0 <= k < others_of(regions).len() ==> end <= #[trigger] range_of(others_of(regions)[k]).0 || range_of(
                others_of(regions)[k],
            ).1 <= start || range_of(others_of(regions)[k]).1 <= range_of(others_of(regions)[k]).0,
        rams_of(regions).len() <= REGION_CAPACITY,
        others_of(regions).len() <= REGION_CAPACITY,
        available_spec(
            rams_of(regions).map_values(|r: BootRegion| range_of(r)),
            others_of(regions).map_values(|r: BootRegion| range_of(r)),
        ) matches Some(a) && a.len() <= AVAILABLE_CAPACITY,
    ensures
        main_memory_range_spec(regions) matches Some(m) && m.0 <= start,
{
    let rams = rams_of(regions);
    let others = others_of(regions);
    let rv = rams.map_values(|r: BootRegion| range_of(r));
    let hv = others.map_values(|r: BootRegion| range_of(r));
    let j = choose|j: int|
        0 <= j < rams.len() && range_of(rams[j]).0 <= start && end <= #[trigger] range_of(rams[j]).1;
    assert(rv[j] == range_of(rams[j]));
    assert forall|k: int| 0 <= k < hv.len() implies end <= (#[trigger] hv[k]).0 || hv[k].1 <= start || hv[k].1
        <= hv[k].0 by {
        assert(hv[k] == range_of(others[k]));
    }
    lemma_available_covers(rv, hv, (start, end));
    let a = available_spec(rv, hv).unwrap();
    let p = choose|p: int| 0 <= p < a.len() && a[p].0 <= start && end <= #[trigger] a[p].1;
    lemma_select(a);
    assert(a[p].1 - a[p].0 >= MIN_MAIN_MEMORY_SIZE);
}

/// The range chosen as main memory is at least 16 MiB long, lies within
/// one RAM region, shares no address with any region that is not RAM, and
/// starts lowest among the pieces of RAM left once those regions are cut
/// out that are long enough.
pub proof fn lemma_main_memory_choice(regions: Seq<BootRegion>)
    ensures
        main_memory_range_spec(regions) matches Some(m) ==> {
            &&& m.1 - m.0 >= MIN_MAIN_MEMORY_SIZE
            &&& exists|i: int|
                0 <= i < rams_of(regions).len() && #[trigger] inside(m, range_of(rams_of(regions)[i]))
            &&& forall|k: int|
                0 <= k < others_of(regions).len() ==> #[trigger] apart(m, range_of(others_of(regions)[k]))
            &&& available_spec(
                rams_of(regions).map_values(|r: BootRegion| range_of(r)),
                others_of(regions).map_values(|r: BootRegion| range_of(r)),
            ) matches Some(a) && forall|i: int|
                0 <= i < a.len() && a[i].1 - a[i].0 >= MIN_MAIN_MEMORY_SIZE ==> m.0 <= (#[trigger] a[i]).0
        },
{
    let rams = rams_of(regions);
    let others = others_of(regions);
    let rv = rams.map_values(|r: BootRegion| range_of(r));
    let hv = others.map_values(|r: BootRegion| range_of(r));
    if let Some(m) = main_memory_range_spec(regions) {
        let a = available_spec(rv, hv).unwrap();
        lemma_available_pieces(rv, hv);
        lemma_select(a);
        let p = choose|p: int| 0 <= p < a.len() && a[p] == m;
        assert(within_one(a[p], rv) && apart_all(a[p], hv));
        let j = choose|j: int| 0 <= j < rv.len() && #[trigger] inside(a[p], rv[j]);
        assert(rv[j] == range_of(rams[j]));
        assert(inside(m, range_of(rams[j])));
        assert forall|k: int| 0 <= k < others.len() implies #[trigger] apart(m, range_of(others[k])) by {
            assert(hv[k] == range_of(others[k]));
            assert(apart(a[p], hv[k]));
        }
    }
}

/// Whether a range does not end before it starts.
pub open spec fn well_formed(r: (usize, usize)) -> bool {
    r.0 <= r.1
}

proof fn lemma_cut_well_formed(r: (usize, usize), hole: (usize, usize))
    requires
        well_formed(r),
    ensures
        forall|i: int| 0 <= i < cut_spec(r, hole).len() ==> well_formed(#[trigger] cut_spec(r, hole)[i]),
{
}

proof fn lemma_cut_all_well_formed(s: Seq<(usize, usize)>, hole: (usize, usize))
    requires
        forall|i: int| 0 <= i < s.len() ==> well_formed(#[trigger] s[i]),
    ensures
        forall|i: int|
            0 <= i < cut_all_spec(s, hole).len() ==> well_formed(#[trigger] cut_all_spec(s, hole)[i]),
    decreases s.len(),
{
    if s.len() > 0 {
        lemma_cut_all_well_formed(s.drop_last(), hole);
        lemma_cut_well_formed(s.last(), hole);
        let a = cut_all_spec(s.drop_last(), hole);
        let b = cut_spec(s.last(), hole);
        assert forall|i: int| 0 <= i < (a + b).len() implies well_formed(#[trigger] (a + b)[i]) by {
            if i < a.len() {
                assert((a + b)[i] == a[i]);
            } else {
                assert((a + b)[i] == b[i - a.len()]);
            }
        }
    }
}

proof fn lemma_subtract_well_formed(init: Seq<(usize, usize)>, holes: Seq<(usize, usize)>)
    requires
        forall|i: int| 0 <= i < init.len() ==> well_formed(#[trigger] init[i]),
    ensures
        subtract_spec(init, holes) matches Some(s) ==> forall|i: int|
            0 <= i < s.len() ==> well_formed(#[trigger] s[i]),
    decreases holes.len(),
{
    if holes.len() > 0 {
        lemma_subtract_well_formed(init, holes.drop_last());
        if let Some(cur) = subtract_spec(init, holes.drop_last()) {
            lemma_cut_all_well_formed(cur, holes.last());
        }
    }
}

proof fn lemma_available_well_formed(rams: Seq<(usize, usize)>, holes: Seq<(usize, usize)>)
    requires
        forall|i: int| 0 <= i < rams.len() ==> well_formed(#[trigger] rams[i]),
    ensures
        available_spec(rams, holes) matches Some(s) ==> forall|i: int|
            0 <= i < s.len() ==> well_formed(#[trigger] s[i]),
    decreases rams.len(),
{
    if rams.len() > 0 {
        lemma_available_well_formed(rams.drop_last(), holes);
        assert(well_formed(seq![rams.last()][0]));
        lemma_subtract_well_formed(seq![rams.last()], holes);
        if let (Some(a), Some(b)) = (
            available_spec(rams.drop_last(), holes),
            subtract_spec(seq![rams.last()], holes),
        ) {
            assert forall|i: int| 0 <= i < (a + b).len() implies well_formed(#[trigger] (a + b)[i]) by {
                if i < a.len() {
                    assert((a + b)[i] == a[i]);
                } else {
                    assert((a + b)[i] == b[i - a.len()]);
                }
            }
        }
    }
}

proof fn lemma_cut_all_prefix(s: Seq<(usize, usize)>, hole: (usize, usize), k: int)
    requires
        0 <= k <= s.len(),
    ensures
        cut_all_spec(s.take(k), hole).len() <= cut_all_spec(s, hole).len(),
    decreases s.len() - k,
{
    if k < s.len() {
        lemma_cut_all_prefix(s, hole, k + 1);
        assert(s.take(k + 1).drop_last() == s.take(k));
    } else {
        assert(s.take(k) == s);
    }
}

proof fn lemma_subtract_prefix(init: Seq<(usize, usize)>, holes: Seq<(usize, usize)>, k: int)
    requires
        0 <= k <= holes.len(),
        subtract_spec(init, holes.take(k)) is None,
    ensures
        subtract_spec(init, holes) is None,
    decreases holes.len() - k,
{
    if k < holes.len() {
        assert(holes.take(k + 1).drop_last() == holes.take(k));
        lemma_subtract_prefix(init, holes, k + 1);
    } else {
        assert(holes.take(k) == holes);
    }
}

proof fn lemma_available_prefix(rams: Seq<(usize, usize)>, holes: Seq<(usize, usize)>, k: int)
    requires
        0 <= k <= rams.len(),
    ensures
        available_spec(rams.take(k), holes) is None ==> available_spec(rams, holes) is None,
        available_spec(rams, holes) matches Some(all) ==> (available_spec(rams.take(k), holes) matches Some(part)
            && part.len() <= all.len()),
    decreases rams.len() - k,
{
    if k < rams.len() {
        assert(rams.take(k + 1).drop_last() == rams.take(k));
        assert(rams.take(k + 1).last() == rams[k]);
        lemma_available_prefix(rams, holes, k + 1);
    } else {
        assert(rams.take(k) == rams);
    }
}

proof fn lemma_filter_step(s: Seq<BootRegion>, i: int)
    requires
        0 <= i < s.len(),
    ensures
        rams_of(s.take(i + 1)) == if is_ram(s[i]) {
            rams_of(s.take(i)).push(s[i])
        } else {
            rams_of(s.take(i))
        },
        others_of(s.take(i + 1)) == if is_not_ram(s[i]) {
            others_of(s.take(i)).push(s[i])
        } else {
            others_of(s.take(i))
        },
{
    assert(s.take(i + 1).drop_last() == s.take(i));
    reveal(Seq::filter);
}

proof fn lemma_filter_len_prefix(s: Seq<BootRegion>, i: int, ram: bool)
    requires
        0 <= i <= s.len(),
    ensures
        ram ==> rams_of(s.take(i)).len() <= rams_of(s).len(),
        !ram ==> others_of(s.take(i)).len() <= others_of(s).len(),
    decreases s.len() - i,
{
    if i < s.len() {
        lemma_filter_step(s, i);
        lemma_filter_len_prefix(s, i + 1, ram);
    } else {
        assert(s.take(i) == s);
    }
}

/// Splits `regions` into its RAM regions and its other regions, each in the
/// given order; `None` when either list would hold more than 32 regions.
pub fn split_regions(regions: &[BootRegion]) -> (res: Option<
    (heapless::Vec<BootRegion, 32>, heapless::Vec<BootRegion, 32>),
>)
    ensures
        res is Some <==> (rams_of(regions@).len() <= REGION_CAPACITY
            && others_of(regions@).len() <= REGION_CAPACITY),
        res matches Some(p) ==> boot_regions32(p.0) == rams_of(regions@)
            && boot_regions32(p.1) == others_of(regions@),
{
    let mut rams = boot_regions32_new();
    let mut others = boot_regions32_new();
    let mut i: usize = 0;
    while i < regions.len()
        invariant
            0 <= i <= regions.len(),
            boot_regions32(rams) == rams_of(regions@.take(i as int)),
            boot_regions32(others) == others_of(regions@.take(i as int)),
            boot_regions32(rams).len() <= REGION_CAPACITY,
            boot_regions32(others).len() <= REGION_CAPACITY,
        decreases regions.len() - i,
    {
        let r = regions[i];
        proof {
            lemma_filter_step(regions@, i as int);
        }
        match r.kind {
            BootMemoryKind::Ram => {
                if boot_regions32_push(&mut rams, r).is_err() {
                    proof {
                        lemma_filter_len_prefix(regions@, i + 1, true);
                    }
                    return None;
                }
            },
            _ => {
                if boot_regions32_push(&mut others, r).is_err() {
                    proof {
                        lemma_filter_len_prefix(regions@, i + 1, false);
                    }
                    return None;
                }
            },
        }
        i = i + 1;
    }
    assert(regions@.take(regions.len() as int) == regions@);
    Some((rams, others))
}

/// Cuts `hole` out of every range of `current`, keeping the pieces in order;
/// `None` when more than 32 pieces are left.
fn cut_ranges(current: &heapless::Vec<PhysCRange, 32>, hole: PhysCRange) -> (res: Option<
    heapless::Vec<PhysCRange, 32>,
>)
    ensures
        res is Some <==> cut_all_spec(ranges32(*current).map_values(|r: PhysCRange| r@), hole@).len()
            <= REGION_CAPACITY,
        res matches Some(v) ==> ranges32(v).map_values(|r: PhysCRange| r@) == cut_all_spec(
            ranges32(*current).map_values(|r: PhysCRange| r@),
            hole@,
        ),
{
    let cur = ranges32_as_slice(current);
    let ghost cv = ranges32(*current).map_values(|r: PhysCRange| r@);
    let mut next = ranges32_new();
    let mut k: usize = 0;
    while k < cur.len()
        invariant
            0 <= k <= cur.len(),
            cur@ == ranges32(*current),
            cv == ranges32(*current).map_values(|r: PhysCRange| r@),
            ranges32(next).map_values(|r: PhysCRange| r@) == cut_all_spec(cv.take(k as int), hole@),
            ranges32(next).len() <= REGION_CAPACITY,
        decreases cur.len() - k,
    {
        let r = cur[k];
        assert(cv.take(k + 1).drop_last() == cv.take(k as int));
        assert(cv.take(k + 1).last() == r@);
        let os = if r.start.raw() >= hole.start.raw() {
            r.start.raw()
        } else {
            hole.start.raw()
        };
        let oe = if r.end.raw() <= hole.end.raw() {
            r.end.raw()
        } else {
            hole.end.raw()
        };
        let ghost before = ranges32(next).map_values(|r: PhysCRange| r@);
        if os < oe {
            if r.start.raw() < os {
                let piece = PhysCRange::new(r.start.raw(), os);
                if ranges32_push(&mut next, piece).is_err() {
                    proof {
                        lemma_cut_all_prefix(cv, hole@, k + 1);
                    }
                    return None;
                }
            }
            if oe < r.end.raw() {
                let piece = PhysCRange::new(oe, r.end.raw());
                if ranges32_push(&mut next, piece).is_err() {
                    proof {
                        lemma_cut_all_prefix(cv, hole@, k + 1);
                    }
                    return None;
                }
            }
        } else {
            if ranges32_push(&mut next, r).is_err() {
                proof {
                    lemma_cut_all_prefix(cv, hole@, k + 1);
                }
                return None;
            }
        }
        assert(ranges32(next).map_values(|r: PhysCRange| r@) =~= before + cut_spec(r@, hole@));
        k = k + 1;
    }
    assert(cv.take(cur.len() as int) == cv);
    Some(next)
}

/// The pieces of `range` left once every region of `holes` is cut out in turn;
/// `None` when more than 32 pieces are left after some hole.
fn subtract_holes(range: PhysCRange, holes: &[BootRegion]) -> (res: Option<
    heapless::Vec<PhysCRange, 32>,
>)
    ensures
        res is Some <==> subtract_spec(seq![range@], holes@.map_values(|r: BootRegion| range_of(r)))
            is Some,
        res matches Some(v) ==> subtract_spec(
            seq![range@],
            holes@.map_values(|r: BootRegion| range_of(r)),
        ) == Some(ranges32(v).map_values(|r: PhysCRange| r@)),
{
    let ghost hv = holes@.map_values(|r: BootRegion| range_of(r));
    let mut current = ranges32_new();
    let _ = ranges32_push(&mut current, range);
    assert(ranges32(current).map_values(|r: PhysCRange| r@) =~= seq![range@]);
    assert(hv.take(0) =~= Seq::<(usize, usize)>::empty());
    let mut j: usize = 0;
    while j < holes.len()
        invariant
            0 <= j <= holes.len(),
            hv == holes@.map_values(|r: BootRegion| range_of(r)),
            subtract_spec(seq![range@], hv.take(j as int)) == Some(
                ranges32(current).map_values(|r: PhysCRange| r@),
            ),
        decreases holes.len() - j,
    {
        assert(hv.take(j + 1).drop_last() == hv.take(j as int));
        assert(hv.take(j + 1).last() == holes@[j as int].range@);
        match cut_ranges(&current, holes[j].range) {
            None => {
                proof {
                    lemma_subtract_prefix(seq![range@], hv, j + 1);
                }
                return None;
            },
            Some(next) => {
                current = next;
            },
        }
        j = j + 1;
    }
    assert(hv.take(holes.len() as int) == hv);
    Some(current)
}

/// The pieces of the RAM regions `rams` that no region of `others` covers,
/// RAM region by RAM region; `None` when the pieces of one RAM region or all
/// pieces together do not fit.
pub fn available_ranges(rams: &[BootRegion], others: &[BootRegion]) -> (res: Option<
    heapless::Vec<PhysCRange, 64>,
>)
    ensures
        res is Some <==> (available_spec(
            rams@.map_values(|r: BootRegion| range_of(r)),
            others@.map_values(|r: BootRegion| range_of(r)),
        ) matches Some(a) && a.len() <= AVAILABLE_CAPACITY),
        res matches Some(v) ==> available_spec(
            rams@.map_values(|r: BootRegion| range_of(r)),
            others@.map_values(|r: BootRegion| range_of(r)),
        ) == Some(ranges64(v).map_values(|r: PhysCRange| r@)),
{
    let ghost rv = rams@.map_values(|r: BootRegion| range_of(r));
    let ghost hv = others@.map_values(|r: BootRegion| range_of(r));
    let mut avail = ranges64_new();
    assert(rv.take(0) =~= Seq::<(usize, usize)>::empty());
    let mut i: usize = 0;
    while i < rams.len()
        invariant
            0 <= i <= rams.len(),
            rv == rams@.map_values(|r: BootRegion| range_of(r)),
            hv == others@.map_values(|r: BootRegion| range_of(r)),
            available_spec(rv.take(i as int), hv) == Some(ranges64(avail).map_values(|r: PhysCRange| r@)),
            ranges64(avail).len() <= AVAILABLE_CAPACITY,
        decreases rams.len() - i,
    {
        assert(rv.take(i + 1).drop_last() == rv.take(i as int));
        assert(rv.take(i + 1).last() == rams@[i as int].range@);
        let pieces = match subtract_holes(rams[i].range, others) {
            None => {
                proof {
                    lemma_available_prefix(rv, hv, i + 1);
                }
                return None;
            },
            Some(p) => p,
        };
        let ps = ranges32_as_slice(&pieces);
        let ghost base = ranges64(avail).map_values(|r: PhysCRange| r@);
        let ghost pv = ps@.map_values(|r: PhysCRange| r@);
        let mut k: usize = 0;
        while k < ps.len()
            invariant
                0 <= k <= ps.len(),
                pv == ps@.map_values(|r: PhysCRange| r@),
                ranges64(avail).map_values(|r: PhysCRange| r@) == base + pv.take(k as int),
                available_spec(rv.take(i + 1), hv) == Some(base + pv),
                0 <= i < rams.len(),
                rv == rams@.map_values(|r: BootRegion| range_of(r)),
                hv == others@.map_values(|r: BootRegion| range_of(r)),
                ranges64(avail).len() <= AVAILABLE_CAPACITY,
            decreases ps.len() - k,
        {
            let ghost before = ranges64(avail).map_values(|r: PhysCRange| r@);
            let ghost before_len = ranges64(avail).len();
            assert(before.len() == before_len);
            assert(pv.take(k as int).len() == k);
            assert(pv[k as int] == ps@[k as int]@);
            if ranges64_push(&mut avail, ps[k]).is_err() {
                proof {
                    lemma_available_prefix(rv, hv, i + 1);
                    assert(before.len() == base.len() + k);
                    assert(pv.len() == ps@.len());
                    assert((base + pv).len() > AVAILABLE_CAPACITY);
                }
                return None;
            }
            assert(ranges64(avail).map_values(|r: PhysCRange| r@) =~= before.push(pv[k as int]));
            assert(ranges64(avail).map_values(|r: PhysCRange| r@) =~= base + pv.take(k + 1));
            k = k + 1;
        }
        assert(pv.take(ps.len() as int) == pv);
        i = i + 1;
    }
    assert(rv.take(rams.len() as int) == rv);
    Some(avail)
}

/// The first range among those of at least 16 MiB that start lowest, or
/// `None` when no range is that large.
pub fn select_main_range(ranges: &[PhysCRange]) -> (res: Option<PhysCRange>)
    requires
        forall|i: int| 0 <= i < ranges.len() ==> well_formed(#[trigger] ranges@[i]@),
    ensures
        res matches Some(r) ==> select_spec(ranges@.map_values(|r: PhysCRange| r@)) == Some(r@),
        res is None ==> select_spec(ranges@.map_values(|r: PhysCRange| r@)) is None,
{
    let ghost sv = ranges@.map_values(|r: PhysCRange| r@);
    let mut best: Option<PhysCRange> = None;
    let mut i: usize = 0;
    while i < ranges.len()
        invariant
            0 <= i <= ranges.len(),
            sv == ranges@.map_values(|r: PhysCRange| r@),
            forall|j: int| 0 <= j < ranges.len() ==> well_formed(#[trigger] ranges@[j]@),
            select_spec(sv.take(i as int)) == match best {
                Some(b) => Some(b@),
                None => None::<(usize, usize)>,
            },
        decreases ranges.len() - i,
    {
        let r = ranges[i];
        assert(sv.take(i + 1).drop_last() == sv.take(i as int));
        assert(sv.take(i + 1).last() == r@);
        assert(well_formed(ranges@[i as int]@));
        let size = r.end.raw() - r.start.raw();
        if size >= MIN_MAIN_MEMORY_SIZE {
            match best {
                None => {
                    best = Some(r);
                },
                Some(b) => {
                    if r.start.raw() < b.start.raw() {
                        best = Some(r);
                    }
                },
            }
        }
        i = i + 1;
    }
    assert(sv.take(ranges.len() as int) == sv);
    best
}

proof fn lemma_rams_well_formed(regions: Seq<BootRegion>, k: int)
    requires
        0 <= k <= regions.len(),
        forall|i: int| 0 <= i < regions.len() && is_ram(#[trigger] regions[i]) ==> well_formed(regions[i].range@),
    ensures
        forall|i: int|
            0 <= i < rams_of(regions.take(k)).len() ==> well_formed(
                (#[trigger] rams_of(regions.take(k))[i]).range@,
            ),
    decreases k,
{
    if k > 0 {
        lemma_rams_well_formed(regions, k - 1);
        lemma_filter_step(regions, k - 1);
    } else {
        reveal(Seq::filter);
    }
}

/// The main memory region among `regions`: the first of the lowest-starting
/// pieces of at least 16 MiB left of the RAM regions once every other region
/// is cut out. It carries the access and cache settings of the first RAM
/// region. `None` when no piece qualifies or a work list runs out of room.
pub fn find_main_memory(regions: &[BootRegion]) -> (res: Option<BootRegion>)
    requires
        forall|i: int|
            0 <= i < regions.len() && is_ram(#[trigger] regions@[i]) ==> well_formed(
                regions@[i].range@,
            ),
    ensures
        res is Some <==> main_memory_range_spec(regions@) is Some,
        res matches Some(m) ==> {
            let rams = rams_of(regions@);
            &&& main_memory_range_spec(regions@) == Some(m.range@)
            &&& m.kind == BootMemoryKind::Ram
            &&& m.access == rams[0].access
            &&& m.cache == rams[0].cache
            &&& m.name@ == "main memory"@
        },
        res matches Some(m) ==> {
            &&& m.range@.1 - m.range@.0 >= MIN_MAIN_MEMORY_SIZE
            &&& exists|i: int|
                0 <= i < rams_of(regions@).len() && #[trigger] inside(m.range@, range_of(rams_of(regions@)[i]))
            &&& forall|k: int|
                0 <= k < others_of(regions@).len() ==> #[trigger] apart(m.range@, range_of(others_of(regions@)[k]))
        },
{
    proof {
        lemma_main_memory_choice(regions@);
    }
    let (rams, others) = match split_regions(regions) {
        None => return None,
        Some(p) => p,
    };
    let ram_slice = boot_regions32_as_slice(&rams);
    let other_slice = boot_regions32_as_slice(&others);
    let avail = match available_ranges(ram_slice, other_slice) {
        None => return None,
        Some(a) => a,
    };
    let av = ranges64_as_slice(&avail);
    proof {
        let rv = rams_of(regions@).map_values(|r: BootRegion| range_of(r));
        let hv = others_of(regions@).map_values(|r: BootRegion| range_of(r));
        lemma_rams_well_formed(regions@, regions@.len() as int);
        assert(regions@.take(regions@.len() as int) == regions@);
        let rf = rams_of(regions@);
        assert forall|i: int| 0 <= i < rv.len() implies well_formed(#[trigger] rv[i]) by {
            assert(rv[i] == rf[i].range@);
        }
        lemma_available_well_formed(rv, hv);
        assert forall|i: int| 0 <= i < av.len() implies well_formed(#[trigger] av@[i]@) by {
            assert(av@.map_values(|r: PhysCRange| r@)[i] == av@[i]@);
        }
    }
    match select_main_range(av) {
        None => None,
        Some(best) => {
            proof {
                reveal_strlit("main memory");
            }
            if ram_slice.len() == 0 {
                return None;
            }
            let first = ram_slice[0];
            Some(
                BootRegion {
                    range: best,
                    name: "main memory",
                    access: first.access,
                    cache: first.cache,
                    kind: BootMemoryKind::Ram,
                },
            )
        },
    }
}

/// Whether a RAM region is added to the heap next to the main memory: it
/// is RAM and does not hold the main memory's start.
pub open spec fn extra_ram(r: BootRegion, main_start: usize) -> bool {
    r.kind == BootMemoryKind::Ram && !(r.range@.0 <= main_start < r.range@.1)
}

/// The heap ranges taken from `regions` besides the main memory, in order:
/// each RAM region that does not hold `main_start`, reached through the
/// linear map at `linear_offset`, as a start and a length.
pub open spec fn extra_ram_spec(regions: Seq<BootRegion>, main_start: usize, linear_offset: usize) -> Seq<
    (usize, usize),
>
    decreases regions.len(),
{
    if regions.len() == 0 {
        Seq::empty()
    } else {
        let prev = extra_ram_spec(regions.drop_last(), main_start, linear_offset);
        let r = regions.last();
        if extra_ram(r, main_start) {
            prev.push(((r.range@.0 + linear_offset) as usize, (r.range@.1 - r.range@.0) as usize))
        } else {
            prev
        }
    }
}

/// The memory added to the heap after the main memory: every other RAM
/// region, at its address in the linear map at `linear_offset`, as a start
/// and a length.
pub fn add_all_ram(regions: &[BootRegion], main_start: usize, linear_offset: usize) -> (r: Vec<
    (usize, usize),
>)
    requires
        forall|i: int|
            0 <= i < regions@.len() && extra_ram(#[trigger] regions@[i], main_start) ==> {
                &&& regions@[i].range@.0 <= regions@[i].range@.1
                &&& regions@[i].range@.1 + linear_offset <= usize::MAX
            },
    ensures
        r@ == extra_ram_spec(regions@, main_start, linear_offset),
{
    let mut out: Vec<(usize, usize)> = Vec::new();
    let mut i: usize = 0;
    while i < regions.len()
        invariant
            0 <= i <= regions.len(),
            forall|j: int|
                0 <= j < regions@.len() && extra_ram(#[trigger] regions@[j], main_start) ==> {
                    &&& regions@[j].range@.0 <= regions@[j].range@.1
                    &&& regions@[j].range@.1 + linear_offset <= usize::MAX
                },
            out@ == extra_ram_spec(regions@.subrange(0, i as int), main_start, linear_offset),
        decreases regions.len() - i,
    {
        let r = regions[i];
        assert(regions@.subrange(0, i + 1).drop_last() =~= regions@.subrange(0, i as int));
        let start = r.range.start.raw();
        let end = r.range.end.raw();
        let is_ram = match r.kind {
            BootMemoryKind::Ram => true,
            _ => false,
        };
        if is_ram && !(start <= main_start && main_start < end) {
            assert(extra_ram(regions@[i as int], main_start));
            out.push((start + linear_offset, end - start));
        }
        i = i + 1;
    }
    assert(regions@.subrange(0, regions.len() as int) =~= regions@);
    out
}

} // verus!
