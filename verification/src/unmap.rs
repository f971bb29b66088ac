//! Unmapping a range of a page table: which entries are invalidated and
//! which child tables are given back, and why nothing in the range is
//! mapped afterwards.
use crate::addr::PhysAddr;
use crate::page_table::{
    entry_size_of, entry_size_spec, lemma_entry_size_positive, lemma_entry_size_step, table_leaves,
    table_len_spec, walkable, PageTableEntry, PteReader, PteWriter, TableGeneric,
};
use vstd::prelude::*;

verus! {

/// Whether the final entry `e` is a valid mapping of an address in
/// `[start, end)`.
pub open spec fn maps_in<P: PageTableEntry>(e: (usize, int, P, PhysAddr, usize), start: int, end: int) -> bool {
    e.2.is_valid() && start <= e.1 < end
}

/// Where the final entries of `es` that validly map an address in
/// `[start, end)` are held (frame and index), in order.
pub open spec fn mapping_slots<P: PageTableEntry>(
    es: Seq<(usize, int, P, PhysAddr, usize)>,
    start: int,
    end: int,
) -> Seq<(PhysAddr, usize)>
    decreases es.len(),
{
    if es.len() == 0 {
        Seq::empty()
    } else {
        let rest = mapping_slots(es.drop_first(), start, end);
        if maps_in(es[0], start, end) {
            seq![(es[0].3, es[0].4)] + rest
        } else {
            rest
        }
    }
}

/// The entries of the table held in `frame` at `level`, whose region starts
/// at `base`, from its entry `from` on, that point at a next-level table, in
/// table order and depth first, each before the tables below it: its level,
/// its address, where it is held, and the frame of the table it points at.
pub open spec fn table_dirs<T: TableGeneric, R: PteReader<T::P>>(
    reader: R,
    frame: PhysAddr,
    level: usize,
    base: int,
    from: nat,
) -> Seq<(usize, int, PhysAddr, usize, PhysAddr)>
    decreases level, table_len_spec::<T>() - from,
{
    if from >= table_len_spec::<T>() || level == 0 {
        Seq::empty()
    } else {
        let pte = reader.entry(frame, from as usize);
        let va = base + from * entry_size_spec::<T>(level as int);
        let here = if pte.is_valid() && level > 1 && !pte.is_huge_spec(true) {
            let child = PhysAddr::from_usize(pte.paddr_spec(true));
            seq![(level, va, frame, from as usize, child)] + table_dirs::<T, R>(
                reader,
                child,
                (level - 1) as usize,
                va,
                0,
            )
        } else {
            Seq::empty()
        };
        here + table_dirs::<T, R>(reader, frame, level, base, from + 1)
    }
}

/// The entries of `ds` whose table's region lies wholly inside
/// `[start, end)`: where each entry is held, and the table's frame.
pub open spec fn freed_tables<T: TableGeneric>(
    ds: Seq<(usize, int, PhysAddr, usize, PhysAddr)>,
    start: int,
    end: int,
) -> Seq<(PhysAddr, usize, PhysAddr)>
    decreases ds.len(),
{
    if ds.len() == 0 {
        Seq::empty()
    } else {
        let d = ds[0];
        let rest = freed_tables::<T>(ds.drop_first(), start, end);
        if start <= d.1 && d.1 + entry_size_spec::<T>(d.0 as int) <= end {
            seq![(d.2, d.3, d.4)] + rest
        } else {
            rest
        }
    }
}

/// Whether the whole address space of a table of geometry `T` fits in a
/// `usize`.
pub open spec fn space_fits<T: TableGeneric>() -> bool {
    table_len_spec::<T>() * entry_size_spec::<T>(T::LEVEL as int) <= usize::MAX + 1
}

/// The slots that unmapping `[start, end)` of the table rooted at `root`
/// invalidates: those of the valid final entries in the range, then the
/// entries that point at tables lying wholly inside it.
pub open spec fn unmap_slots<T: TableGeneric, R: PteReader<T::P>>(
    reader: R,
    root: PhysAddr,
    start: int,
    end: int,
) -> Seq<(PhysAddr, usize)> {
    mapping_slots(table_leaves::<T, R>(reader, root, T::LEVEL, 0, 0), start, end) + freed_tables::<T>(
        table_dirs::<T, R>(reader, root, T::LEVEL, 0, 0),
        start,
        end,
    ).map_values(|t: (PhysAddr, usize, PhysAddr)| (t.0, t.1))
}

proof fn lemma_mapping_slots_concat<P: PageTableEntry>(
    a: Seq<(usize, int, P, PhysAddr, usize)>,
    b: Seq<(usize, int, P, PhysAddr, usize)>,
    start: int,
    end: int,
)
    ensures
        mapping_slots(a + b, start, end) == mapping_slots(a, start, end) + mapping_slots(b, start, end),
    decreases a.len(),
{
    if a.len() == 0 {
        assert(a + b =~= b);
        assert(Seq::<(PhysAddr, usize)>::empty() + mapping_slots(b, start, end) =~= mapping_slots(b, start, end));
    } else {
        assert((a + b).drop_first() =~= a.drop_first() + b);
        assert((a + b)[0] == a[0]);
        lemma_mapping_slots_concat(a.drop_first(), b, start, end);
        if maps_in(a[0], start, end) {
            assert(seq![(a[0].3, a[0].4)] + (mapping_slots(a.drop_first(), start, end) + mapping_slots(b, start, end))
                =~= (seq![(a[0].3, a[0].4)] + mapping_slots(a.drop_first(), start, end)) + mapping_slots(b, start, end));
        }
    }
}

proof fn lemma_freed_tables_concat<T: TableGeneric>(
    a: Seq<(usize, int, PhysAddr, usize, PhysAddr)>,
    b: Seq<(usize, int, PhysAddr, usize, PhysAddr)>,
    start: int,
    end: int,
)
    ensures
        freed_tables::<T>(a + b, start, end) == freed_tables::<T>(a, start, end) + freed_tables::<T>(b, start, end),
    decreases a.len(),
{
    if a.len() == 0 {
        assert(a + b =~= b);
        assert(Seq::<(PhysAddr, usize, PhysAddr)>::empty() + freed_tables::<T>(b, start, end) =~= freed_tables::<T>(
            b,
            start,
            end,
        ));
    } else {
        assert((a + b).drop_first() =~= a.drop_first() + b);
        assert((a + b)[0] == a[0]);
        lemma_freed_tables_concat::<T>(a.drop_first(), b, start, end);
        let d = a[0];
        if start <= d.1 && d.1 + entry_size_spec::<T>(d.0 as int) <= end {
            assert(seq![(d.2, d.3, d.4)] + (freed_tables::<T>(a.drop_first(), start, end) + freed_tables::<T>(
                b,
                start,
                end,
            )) =~= (seq![(d.2, d.3, d.4)] + freed_tables::<T>(a.drop_first(), start, end)) + freed_tables::<T>(
                b,
                start,
                end,
            ));
        }
    }
}

/// A final entry of `es` that validly maps an address in the range has its
/// slot among the mapping slots.
proof fn lemma_mapping_slots_contains<P: PageTableEntry>(
    es: Seq<(usize, int, P, PhysAddr, usize)>,
    start: int,
    end: int,
    k: int,
)
    requires
        0 <= k < es.len(),
        maps_in(es[k], start, end),
    ensures
        mapping_slots(es, start, end).contains((es[k].3, es[k].4)),
    decreases es.len(),
{
    let m = mapping_slots(es, start, end);
    if k == 0 {
        assert(m[0] == (es[0].3, es[0].4));
    } else {
        assert(es.drop_first()[k - 1] == es[k]);
        lemma_mapping_slots_contains(es.drop_first(), start, end, k - 1);
        let r = mapping_slots(es.drop_first(), start, end);
        let j = choose|j: int| 0 <= j < r.len() && r[j] == (es[k].3, es[k].4);
        if maps_in(es[0], start, end) {
            assert(m[j + 1] == r[j]);
        } else {
            assert(m[j] == r[j]);
        }
    }
}

/// Each final entry of a table is the entry its slot holds.
proof fn lemma_leaf_is_its_slot<T: TableGeneric, R: PteReader<T::P>>(
    reader: R,
    frame: PhysAddr,
    level: usize,
    base: int,
    from: nat,
)
    ensures
        forall|k: int|
            0 <= k < table_leaves::<T, R>(reader, frame, level, base, from).len() ==> (#[trigger] table_leaves::<
                T,
                R,
            >(reader, frame, level, base, from)[k]).2 == reader.entry(
                table_leaves::<T, R>(reader, frame, level, base, from)[k].3,
                table_leaves::<T, R>(reader, frame, level, base, from)[k].4,
            ),
    decreases level, table_len_spec::<T>() - from,
{
    if from < table_len_spec::<T>() && level != 0 {
        let pte = reader.entry(frame, from as usize);
        let va = base + from * entry_size_spec::<T>(level as int);
        let w = table_leaves::<T, R>(reader, frame, level, base, from);
        let rest = table_leaves::<T, R>(reader, frame, level, base, from + 1);
        lemma_leaf_is_its_slot::<T, R>(reader, frame, level, base, from + 1);
        let is_table = pte.is_valid() && level > 1 && !pte.is_huge_spec(true);
        let here = if is_table {
            table_leaves::<T, R>(reader, PhysAddr::from_usize(pte.paddr_spec(true)), (level - 1) as usize, va, 0)
        } else {
            seq![(level, va, pte, frame, from as usize)]
        };
        if is_table {
            lemma_leaf_is_its_slot::<T, R>(reader, PhysAddr::from_usize(pte.paddr_spec(true)), (level - 1) as usize, va, 0);
        }
        assert(w == here + rest);
        assert forall|k: int| 0 <= k < w.len() implies (#[trigger] w[k]).2 == reader.entry(w[k].3, w[k].4) by {
            if k < here.len() {
                assert(w[k] == here[k]);
            } else {
                assert(w[k] == rest[k - here.len()]);
            }
        }
    }
}

/// Writing invalid entries only takes mappings away: every valid final
/// entry of a table after such writes was a final entry of it before.
pub proof fn lemma_invalidation_keeps_leaves<T: TableGeneric, R: PteReader<T::P>>(
    before: R,
    after: R,
    frame: PhysAddr,
    level: usize,
    base: int,
    from: nat,
)
    requires
        forall|f: PhysAddr, i: usize|
            #[trigger] after.entry(f, i) == before.entry(f, i) || !after.entry(f, i).is_valid(),
    ensures
        forall|k: int|
            0 <= k < table_leaves::<T, R>(after, frame, level, base, from).len() && (#[trigger] table_leaves::<
                T,
                R,
            >(after, frame, level, base, from)[k]).2.is_valid() ==> table_leaves::<T, R>(
                before,
                frame,
                level,
                base,
                from,
            ).contains(table_leaves::<T, R>(after, frame, level, base, from)[k]),
    decreases level, table_len_spec::<T>() - from,
{
    if from < table_len_spec::<T>() && level != 0 {
        let p0 = before.entry(frame, from as usize);
        let p1 = after.entry(frame, from as usize);
        let va = base + from * entry_size_spec::<T>(level as int);
        let w0 = table_leaves::<T, R>(before, frame, level, base, from);
        let w1 = table_leaves::<T, R>(after, frame, level, base, from);
        let r0 = table_leaves::<T, R>(before, frame, level, base, from + 1);
        let r1 = table_leaves::<T, R>(after, frame, level, base, from + 1);
        lemma_invalidation_keeps_leaves::<T, R>(before, after, frame, level, base, from + 1);
        let t0 = p0.is_valid() && level > 1 && !p0.is_huge_spec(true);
        let t1 = p1.is_valid() && level > 1 && !p1.is_huge_spec(true);
        let h0 = if t0 {
            table_leaves::<T, R>(before, PhysAddr::from_usize(p0.paddr_spec(true)), (level - 1) as usize, va, 0)
        } else {
            seq![(level, va, p0, frame, from as usize)]
        };
        let h1 = if t1 {
            table_leaves::<T, R>(after, PhysAddr::from_usize(p1.paddr_spec(true)), (level - 1) as usize, va, 0)
        } else {
            seq![(level, va, p1, frame, from as usize)]
        };
        assert(w0 == h0 + r0);
        assert(w1 == h1 + r1);
        if t1 {
            assert(p1 == p0);
            lemma_invalidation_keeps_leaves::<T, R>(
                before,
                after,
                PhysAddr::from_usize(p1.paddr_spec(true)),
                (level - 1) as usize,
                va,
                0,
            );
        }
        assert forall|k: int| 0 <= k < w1.len() && (#[trigger] w1[k]).2.is_valid() implies w0.contains(w1[k]) by {
            if k < h1.len() {
                assert(w1[k] == h1[k]);
                if t1 {
                    let j = choose|j: int| 0 <= j < h0.len() && h0[j] == h1[k];
                    assert(w0[j] == h0[j]);
                } else {
                    assert(h1[k] == (level, va, p1, frame, from as usize));
                    assert(p1 == p0);
                    assert(w0[0] == h0[0]);
                }
            } else {
                assert(w1[k] == r1[k - h1.len()]);
                let j = choose|j: int| 0 <= j < r0.len() && r0[j] == r1[k - h1.len()];
                assert(w0[h0.len() + j] == r0[j]);
            }
        }
    }
}

/// After the slots of every valid final entry mapping an address in
/// `[start, end)`, and those of `extra`, are written invalid, and nothing
/// else changes, no valid final entry of the table maps an address in
/// `[start, end)`.
pub proof fn lemma_unmapped<T: TableGeneric, R: PteReader<T::P>>(
    before: R,
    after: R,
    root: PhysAddr,
    start: int,
    end: int,
    extra: Seq<(PhysAddr, usize)>,
)
    requires
        forall|f: PhysAddr, i: usize|
            (mapping_slots(table_leaves::<T, R>(before, root, T::LEVEL, 0, 0), start, end) + extra).contains((f, i))
                ==> !(#[trigger] after.entry(f, i)).is_valid(),
        forall|f: PhysAddr, i: usize|
            !(mapping_slots(table_leaves::<T, R>(before, root, T::LEVEL, 0, 0), start, end) + extra).contains((f, i))
                ==> #[trigger] after.entry(f, i) == before.entry(f, i),
    ensures
        forall|k: int|
            0 <= k < table_leaves::<T, R>(after, root, T::LEVEL, 0, 0).len() ==> !maps_in(
                #[trigger] table_leaves::<T, R>(after, root, T::LEVEL, 0, 0)[k],
                start,
                end,
            ),
{
    let l0 = table_leaves::<T, R>(before, root, T::LEVEL, 0, 0);
    let l1 = table_leaves::<T, R>(after, root, T::LEVEL, 0, 0);
    let m = mapping_slots(l0, start, end);
    let slots = m + extra;
    assert forall|f: PhysAddr, i: usize|
        #[trigger] after.entry(f, i) == before.entry(f, i) || !after.entry(f, i).is_valid() by {
        if slots.contains((f, i)) {
        }
    }
    lemma_invalidation_keeps_leaves::<T, R>(before, after, root, T::LEVEL, 0, 0);
    lemma_leaf_is_its_slot::<T, R>(after, root, T::LEVEL, 0, 0);
    assert forall|k: int| 0 <= k < l1.len() implies !maps_in(#[trigger] l1[k], start, end) by {
        if maps_in(l1[k], start, end) {
            assert(l0.contains(l1[k]));
            let j = choose|j: int| 0 <= j < l0.len() && l0[j] == l1[k];
            lemma_mapping_slots_contains(l0, start, end, j);
            let q = choose|q: int| 0 <= q < m.len() && m[q] == (l0[j].3, l0[j].4);
            assert(slots[q] == m[q]);
            assert(slots.contains((l1[k].3, l1[k].4)));
            assert(!after.entry(l1[k].3, l1[k].4).is_valid());
        }
    }
}

/// Appends to `slots` the slots of the valid final entries of the table
/// held in `frame` at `level`, whose region starts at `base`, that map an
/// address in `[start, end)`, and to `tables` the entries pointing at
/// tables that lie wholly inside it, as `mapping_slots` and `freed_tables`
/// list them.
pub fn collect_unmap<T: TableGeneric, R: PteReader<T::P>>(
    reader: &R,
    frame: PhysAddr,
    level: usize,
    base: usize,
    start: usize,
    end: usize,
    slots: &mut Vec<(PhysAddr, usize)>,
    tables: &mut Vec<(PhysAddr, usize, PhysAddr)>,
)
    requires
        walkable::<T>(),
        1 <= level <= T::LEVEL,
        base + table_len_spec::<T>() * entry_size_spec::<T>(level as int) <= usize::MAX + 1,
    ensures
        final(slots)@ == old(slots)@ + mapping_slots(
            table_leaves::<T, R>(*reader, frame, level, base as int, 0),
            start as int,
            end as int,
        ),
        final(tables)@ == old(tables)@ + freed_tables::<T>(
            table_dirs::<T, R>(*reader, frame, level, base as int, 0),
            start as int,
            end as int,
        ),
    decreases level,
{
    proof {
        vstd::bits::lemma_usize_pow2_no_overflow(T::INDEX_BITS as nat);
        vstd::bits::lemma_usize_shl_is_mul(1, T::INDEX_BITS);
        lemma_entry_size_positive::<T>(level as int);
    }
    let tl: usize = 1usize << T::INDEX_BITS;
    let size = entry_size_of::<T>(level);
    let ghost s0 = slots@;
    let ghost t0 = tables@;
    let ghost b = base as int;
    let mut idx: usize = 0;
    while idx < tl
        invariant
            walkable::<T>(),
            1 <= level <= T::LEVEL,
            tl == table_len_spec::<T>(),
            size == entry_size_spec::<T>(level as int),
            size >= 1,
            base + tl * size <= usize::MAX + 1,
            b == base as int,
            s0 == old(slots)@,
            t0 == old(tables)@,
            0 <= idx <= tl,
            s0 + mapping_slots(table_leaves::<T, R>(*reader, frame, level, b, 0), start as int, end as int)
                == slots@ + mapping_slots(table_leaves::<T, R>(*reader, frame, level, b, idx as nat), start as int, end as int),
            t0 + freed_tables::<T>(table_dirs::<T, R>(*reader, frame, level, b, 0), start as int, end as int)
                == tables@ + freed_tables::<T>(table_dirs::<T, R>(*reader, frame, level, b, idx as nat), start as int, end as int),
        decreases tl - idx,
    {
        assert(base + idx * size + size <= base + tl * size && 0 <= idx * size) by (nonlinear_arith)
            requires
                idx < tl,
                size >= 1,
        ;
        let pte = reader.read_pte(frame, idx);
        let va = base + idx * size;
        let ghost leaves_rest = table_leaves::<T, R>(*reader, frame, level, b, (idx + 1) as nat);
        let ghost dirs_rest = table_dirs::<T, R>(*reader, frame, level, b, (idx + 1) as nat);
        let ghost s1 = slots@;
        let ghost t1 = tables@;
        if pte.valid() && level > 1 && !pte.is_huge(true) {
            let child = pte.paddr(true);
            proof {
                PhysAddr::lemma_from_usize(pte.paddr_spec(true));
                lemma_entry_size_step::<T>(level - 1);
                assert(((level - 1) as usize) as int + 1 == level);
                assert(va + tl * entry_size_spec::<T>(level - 1) == va + size) by (nonlinear_arith)
                    requires
                        size == entry_size_spec::<T>(level - 1) * tl,
                ;
            }
            let ghost lc = table_leaves::<T, R>(*reader, child, (level - 1) as usize, va as int, 0);
            assert(pte == reader.entry(frame, idx));
            assert(child == PhysAddr::from_usize(pte.paddr_spec(true)));
            assert(va == b + (idx as nat) * entry_size_spec::<T>(level as int));
            assert((idx as nat) < table_len_spec::<T>());
            let ghost dc = table_dirs::<T, R>(*reader, child, (level - 1) as usize, va as int, 0);
            assert(table_leaves::<T, R>(*reader, frame, level, b, idx as nat) == lc + leaves_rest);
            assert(table_dirs::<T, R>(*reader, frame, level, b, idx as nat) == (seq![
                (level, va as int, frame, idx, child),
            ] + dc) + dirs_rest);
            proof {
                lemma_mapping_slots_concat(lc, leaves_rest, start as int, end as int);
                lemma_freed_tables_concat::<T>(seq![(level, va as int, frame, idx, child)] + dc, dirs_rest, start as int, end as int);
                lemma_freed_tables_concat::<T>(seq![(level, va as int, frame, idx, child)], dc, start as int, end as int);
                let one = seq![(level, va as int, frame, idx, child)];
                assert(one.drop_first() =~= Seq::<(usize, int, PhysAddr, usize, PhysAddr)>::empty());
                assert(freed_tables::<T>(one.drop_first(), start as int, end as int) == Seq::<(PhysAddr, usize, PhysAddr)>::empty());
            }
            if start <= va && va <= end && size <= end - va {
                tables.push((frame, idx, child));
                proof {
                    let one = seq![(level, va as int, frame, idx, child)];
                    assert(freed_tables::<T>(one, start as int, end as int) =~= seq![(frame, idx, child)]);
                }
            } else {
                proof {
                    let one = seq![(level, va as int, frame, idx, child)];
                    assert(freed_tables::<T>(one, start as int, end as int) =~= Seq::<(PhysAddr, usize, PhysAddr)>::empty());
                }
            }
            let ghost t2 = tables@;
            collect_unmap::<T, R>(reader, child, level - 1, va, start, end, slots, tables);
            proof {
                let one = seq![(level, va as int, frame, idx, child)];
                let fo = freed_tables::<T>(one, start as int, end as int);
                assert(t2 == t1 + fo);
                assert(t1 + freed_tables::<T>(table_dirs::<T, R>(*reader, frame, level, b, idx as nat), start as int, end as int)
                    =~= tables@ + freed_tables::<T>(dirs_rest, start as int, end as int));
                assert(s1 + mapping_slots(table_leaves::<T, R>(*reader, frame, level, b, idx as nat), start as int, end as int)
                    =~= slots@ + mapping_slots(leaves_rest, start as int, end as int));
            }
        } else {
            let ghost one_leaf = (level, va as int, pte, frame, idx);
            assert(table_leaves::<T, R>(*reader, frame, level, b, idx as nat) == seq![one_leaf] + leaves_rest);
            assert(table_dirs::<T, R>(*reader, frame, level, b, idx as nat) == Seq::<(usize, int, PhysAddr, usize, PhysAddr)>::empty() + dirs_rest);
            assert(Seq::<(usize, int, PhysAddr, usize, PhysAddr)>::empty() + dirs_rest =~= dirs_rest);
            proof {
                lemma_mapping_slots_concat(seq![one_leaf], leaves_rest, start as int, end as int);
                assert(seq![one_leaf].drop_first() =~= Seq::<(usize, int, T::P, PhysAddr, usize)>::empty());
                assert(mapping_slots(seq![one_leaf].drop_first(), start as int, end as int) == Seq::<(PhysAddr, usize)>::empty());
            }
            if pte.valid() && start <= va && va < end {
                slots.push((frame, idx));
                proof {
                    assert(mapping_slots(seq![one_leaf], start as int, end as int) =~= seq![(frame, idx)]);
                    assert(s1 + mapping_slots(table_leaves::<T, R>(*reader, frame, level, b, idx as nat), start as int, end as int)
                        =~= slots@ + mapping_slots(leaves_rest, start as int, end as int));
                }
            } else {
                proof {
                    assert(mapping_slots(seq![one_leaf], start as int, end as int) =~= Seq::<(PhysAddr, usize)>::empty());
                    assert(s1 + mapping_slots(table_leaves::<T, R>(*reader, frame, level, b, idx as nat), start as int, end as int)
                        =~= slots@ + mapping_slots(leaves_rest, start as int, end as int));
                }
            }
        }
        idx = idx + 1;
    }
    assert(mapping_slots(table_leaves::<T, R>(*reader, frame, level, b, tl as nat), start as int, end as int)
        == Seq::<(PhysAddr, usize)>::empty());
    assert(freed_tables::<T>(table_dirs::<T, R>(*reader, frame, level, b, tl as nat), start as int, end as int)
        == Seq::<(PhysAddr, usize, PhysAddr)>::empty());
    assert(slots@ + Seq::<(PhysAddr, usize)>::empty() =~= slots@);
    assert(tables@ + Seq::<(PhysAddr, usize, PhysAddr)>::empty() =~= tables@);
}

/// Writes every slot of `slots` invalid: the entry read there with its
/// valid bit cleared.
pub fn invalidate_slots<P: PageTableEntry, M: PteWriter<P>>(mem: &mut M, slots: &Vec<(PhysAddr, usize)>)
    ensures
        forall|f: PhysAddr, i: usize| slots@.contains((f, i)) ==> !(#[trigger] final(mem).entry(f, i)).is_valid(),
        forall|f: PhysAddr, i: usize| !slots@.contains((f, i)) ==> #[trigger] final(mem).entry(f, i) == old(mem).entry(f, i),
{
    let mut k: usize = 0;
    while k < slots.len()
        invariant
            0 <= k <= slots@.len(),
            forall|f: PhysAddr, i: usize|
                slots@.subrange(0, k as int).contains((f, i)) ==> !(#[trigger] mem.entry(f, i)).is_valid(),
            forall|f: PhysAddr, i: usize|
                !slots@.subrange(0, k as int).contains((f, i)) ==> #[trigger] mem.entry(f, i) == old(mem).entry(f, i),
        decreases slots@.len() - k,
    {
        let (f, i) = slots[k];
        let mut pte = mem.read_pte(f, i);
        pte.set_valid(false);
        let ghost before = *mem;
        mem.write_pte(f, i, pte);
        proof {
            let p0 = slots@.subrange(0, k as int);
            let p1 = slots@.subrange(0, k + 1);
            assert(p1 =~= p0.push((f, i)));
            assert forall|g: PhysAddr, j: usize| p1.contains((g, j)) implies !(#[trigger] mem.entry(g, j)).is_valid() by {
                if !(g == f && j == i) {
                    let q = choose|q: int| 0 <= q < p1.len() && p1[q] == (g, j);
                    assert(p0[q] == p1[q]);
                }
            }
            assert forall|g: PhysAddr, j: usize| !p1.contains((g, j)) implies #[trigger] mem.entry(g, j) == old(mem).entry(g, j) by {
                assert(p1[k as int] == (f, i));
                if !(g == f && j == i) {
                    if p0.contains((g, j)) {
                        let q = choose|q: int| 0 <= q < p0.len() && p0[q] == (g, j);
                        assert(p1[q] == p0[q]);
                    }
                }
            }
        }
        k = k + 1;
    }
    assert(slots@.subrange(0, slots@.len() as int) =~= slots@);
}

} // verus!
