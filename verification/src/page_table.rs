//! A page table generic over the architecture's table format and over the
//! allocator its frames come from.
use crate::addr::{PhysAddr, VirtAddr};
use crate::paging::{MapConfig, PagingConfig, PagingError, WalkConfig};
use crate::percpu::is_pow2;
use crate::unmap::{
    collect_unmap, freed_tables, invalidate_slots, lemma_unmapped, mapping_slots, maps_in, space_fits,
    table_dirs, unmap_slots,
};
use vstd::arithmetic::power2::pow2;
use vstd::prelude::*;

verus! {

/// Where the frames of a page table come from.
pub trait FrameAllocator: Clone {
    /// A fresh zeroed frame, or `None` when memory is exhausted.
    fn alloc_frame(&self) -> Option<PhysAddr>;

    /// Gives `frame` back.
    fn dealloc_frame(&self, frame: PhysAddr);

    /// The address at which the kernel reaches the physical address `paddr`.
    fn phys_to_virt(&self, paddr: PhysAddr) -> usize;
}

/// One entry of a page table in the architecture's format.
pub trait PageTableEntry: Clone + Copy + Sized {
    /// Whether the entry is valid.
    spec fn is_valid(&self) -> bool;

    fn new_valid() -> Self;

    fn valid(&self) -> (b: bool)
        ensures
            b == self.is_valid(),
    ;

    /// Sets or clears the valid bit; a cleared entry is no longer valid.
    fn set_valid(&mut self, valid: bool)
        ensures
            !valid ==> !final(self).is_valid(),
    ;

    /// The physical address the entry points at.
    spec fn paddr_spec(&self, is_dir: bool) -> usize;

    /// Whether a directory entry maps a block.
    spec fn is_huge_spec(&self, is_dir: bool) -> bool;

    /// The physical address the entry points at; `is_dir` tells a directory
    /// entry from a last-level one.
    fn paddr(&self, is_dir: bool) -> (p: PhysAddr)
        ensures
            p@ == self.paddr_spec(is_dir),
    ;

    fn set_paddr(&mut self, paddr: PhysAddr, is_dir: bool);

    /// Whether a directory entry maps a block rather than a next-level table.
    fn is_huge(&self, is_dir: bool) -> (b: bool)
        ensures
            b == self.is_huge_spec(is_dir),
    ;

    fn set_is_huge(&mut self, b: bool, is_dir: bool);

    fn is_writable(&self) -> bool;

    fn set_writable(&mut self, b: bool);

    fn is_executable(&self) -> bool;

    fn set_executable(&mut self, b: bool);

    fn is_lower_access(&self) -> bool;

    fn set_lower_access(&mut self, b: bool);

    fn is_global(&self, is_dir: bool) -> bool;

    fn set_global(&mut self, b: bool, is_dir: bool);

    fn is_accessed(&self) -> bool;

    fn set_accessed(&mut self, b: bool);

    fn is_dirty(&self) -> bool;

    fn set_dirty(&mut self, b: bool);
}

/// The geometry of an architecture's page tables. Levels are numbered from
/// 1 to `LEVEL`, each indexed by `INDEX_BITS` bits of the address.
pub trait TableGeneric: Clone + Copy {
    type P: PageTableEntry;

    /// Size of a page (4 KiB, 16 KiB, 64 KiB, ...).
    const PAGE_SIZE: usize;

    /// Number of levels.
    const LEVEL: usize;

    /// Index bits per level.
    const INDEX_BITS: usize;

    /// Highest level whose entries may map a block directly.
    const MAX_BLOCK_LEVEL: usize;

    /// Flushes the translation caches for `vaddr`, or for every address.
    fn flush(vaddr: Option<VirtAddr>);
}

/// The base-2 logarithm of a power of two.
pub open spec fn log2_spec(a: usize) -> nat {
    choose|n: nat| n < usize::BITS && a == pow2(n)
}

/// Number of address bits translated by a table of geometry `T`.
pub open spec fn valid_bits_spec<T: TableGeneric>() -> int {
    log2_spec(T::PAGE_SIZE) + T::LEVEL * T::INDEX_BITS
}

/// The geometry of `T` as plain values.
pub open spec fn config_spec<T: TableGeneric>() -> PagingConfig {
    PagingConfig {
        page_size: T::PAGE_SIZE,
        levels: T::LEVEL,
        index_bits: T::INDEX_BITS,
        max_block_level: T::MAX_BLOCK_LEVEL,
    }
}

/// The geometry of `T` as plain values.
pub fn config_of<T: TableGeneric>() -> (c: PagingConfig)
    ensures
        c == config_spec::<T>(),
{
    PagingConfig {
        page_size: T::PAGE_SIZE,
        levels: T::LEVEL,
        index_bits: T::INDEX_BITS,
        max_block_level: T::MAX_BLOCK_LEVEL,
    }
}

/// One frame holding a table, with the allocator it came from.
pub struct Frame<T: TableGeneric, A: FrameAllocator> {
    pub paddr: PhysAddr,
    pub allocator: A,
    pub marker: core::marker::PhantomData<T>,
}

impl<T: TableGeneric, A: FrameAllocator> Frame<T, A> {
    /// The frame that an allocation answered with `frame`: `NoMemory` when
    /// there was none.
    pub fn from_alloc(allocator: A, frame: Option<PhysAddr>) -> (r: Result<Self, PagingError>)
        ensures
            frame is None ==> r == Err::<Self, PagingError>(PagingError::NoMemory),
            frame matches Some(p) ==> r matches Ok(f) && f.paddr == p && f.allocator == allocator,
    {
        match frame {
            Some(paddr) => Ok(Frame { paddr, allocator, marker: core::marker::PhantomData }),
            None => Err(PagingError::NoMemory),
        }
    }

    /// Allocates a frame from `allocator`.
    pub fn new(allocator: A) -> (r: Result<Self, PagingError>)
        ensures
            r matches Ok(f) ==> f.allocator == allocator,
            r matches Err(e) ==> e == PagingError::NoMemory,
    {
        let frame = allocator.alloc_frame();
        Self::from_alloc(allocator, frame)
    }

    /// The geometry of `T` as plain values.
    pub fn config() -> (c: PagingConfig)
        ensures
            c == config_spec::<T>(),
    {
        config_of::<T>()
    }

    /// Size of the region one entry at `level` maps (level 1 maps pages):
    /// a page times 2 to `INDEX_BITS` for each level below `level`.
    pub fn level_size(level: usize) -> (s: usize)
        requires
            1 <= level <= T::LEVEL,
            config_spec::<T>().level_size_ok(level as int),
        ensures
            s == entry_size_spec::<T>(level as int),
            s == config_spec::<T>().level_size_spec(level as int),
    {
        Self::config().level_size(level)
    }

    /// The entry that `vaddr` selects in a table at `level` (level 1 maps
    /// pages): the `INDEX_BITS` bits above the page offset and the index
    /// bits of every level below `level`.
    pub fn virt_to_index(vaddr: VirtAddr, level: usize) -> (i: usize)
        requires
            1 <= level <= T::LEVEL,
            is_pow2(T::PAGE_SIZE),
            log2_spec(T::PAGE_SIZE) + (level - 1) * T::INDEX_BITS < usize::BITS,
            T::INDEX_BITS < usize::BITS,
        ensures
            i == config_spec::<T>().virt_to_index_spec(vaddr@, level as int, log2_spec(T::PAGE_SIZE)),
    {
        let ghost shift = log2_spec(T::PAGE_SIZE);
        let c = Self::config();
        assert(c.level_shift_spec(level as int) == (level - 1) * T::INDEX_BITS) by (nonlinear_arith)
            requires
                c.level_shift_spec(level as int) == T::INDEX_BITS * (level - 1),
        ;
        c.virt_to_index(vaddr, level, Ghost(shift))
    }
}

/// A page table: its root frame.
pub struct PageTable<T: TableGeneric, A: FrameAllocator> {
    pub root: Frame<T, A>,
}

impl<T: TableGeneric, A: FrameAllocator> PageTable<T, A> {
    /// A table whose root frame comes from `allocator`; `NoMemory` when it
    /// has none.
    pub fn new(allocator: A) -> (r: Result<Self, PagingError>)
        ensures
            r matches Ok(t) ==> t.root.allocator == allocator,
            r matches Err(e) ==> e == PagingError::NoMemory,
    {
        let frame = allocator.alloc_frame();
        Self::from_alloc(allocator, frame)
    }

    /// The table whose root is the frame an allocation answered with
    /// `frame`: `NoMemory` when there was none. Such a frame comes zeroed,
    /// so the table maps nothing (see `lemma_empty_root_maps_nothing`).
    pub fn from_alloc(allocator: A, frame: Option<PhysAddr>) -> (r: Result<Self, PagingError>)
        ensures
            frame is None ==> r == Err::<Self, PagingError>(PagingError::NoMemory),
            frame matches Some(p) ==> r matches Ok(t) && t.root.paddr == p && t.root.allocator == allocator,
    {
        let root = Frame::from_alloc(allocator, frame)?;
        Ok(PageTable { root })
    }

    /// Checks a mapping request: the size must not be zero and both
    /// addresses must be page aligned.
    pub fn validate_map_config(&self, config: &MapConfig<T::P>) -> (r: Result<(), PagingError>)
        requires
            T::PAGE_SIZE > 0,
        ensures
            r == config_spec::<T>().validate_map_config_spec(config),
    {
        Frame::<T, A>::config().validate_map_config(config)
    }

    /// Checks a mapping request as mapping does before it touches any
    /// table: a non-zero size, page-aligned addresses, and neither range
    /// running past the end of the address space.
    pub fn check_map(&self, config: &MapConfig<T::P>) -> (r: Result<(), PagingError>)
        requires
            T::PAGE_SIZE > 0,
        ensures
            r == config_spec::<T>().check_map_request_spec(config),
    {
        Frame::<T, A>::config().check_map_request(config)
    }

    /// Size of a page.
    pub fn page_size() -> (s: usize)
        ensures
            s == T::PAGE_SIZE,
    {
        T::PAGE_SIZE
    }

    /// Number of levels.
    pub fn table_levels() -> (n: usize)
        ensures
            n == T::LEVEL,
    {
        T::LEVEL
    }

    /// Number of address bits the table translates: the page offset and
    /// the index bits of every level.
    pub fn valid_bits() -> (n: usize)
        requires
            is_pow2(T::PAGE_SIZE),
            valid_bits_spec::<T>() <= usize::MAX,
        ensures
            n == valid_bits_spec::<T>(),
    {
        let ghost shift = log2_spec(T::PAGE_SIZE);
        let c = Self::root_config();
        let s = crate::paging::page_shift_of(T::PAGE_SIZE, Ghost(shift));
        assert(0 <= T::LEVEL * T::INDEX_BITS <= valid_bits_spec::<T>() - s) by (nonlinear_arith)
            requires
                valid_bits_spec::<T>() == s + T::LEVEL * T::INDEX_BITS,
        ;
        s + c.levels * c.index_bits
    }

    fn root_config() -> (c: PagingConfig)
        ensures
            c == config_spec::<T>(),
    {
        Frame::<T, A>::config()
    }

    /// What unmapping `[start_vaddr, end_vaddr)` touches, reading tables
    /// through `reader`: the slots of the valid final entries mapping an
    /// address in the range, in table order, and the entries pointing at
    /// tables that lie wholly inside the range, with those tables' frames.
    pub fn unmap_plan<R: PteReader<T::P>>(&self, start_vaddr: VirtAddr, end_vaddr: VirtAddr, reader: &R) -> (r: (
        Vec<(PhysAddr, usize)>,
        Vec<(PhysAddr, usize, PhysAddr)>,
    ))
        requires
            walkable::<T>(),
            space_fits::<T>(),
        ensures
            r.0@ == mapping_slots(
                table_leaves::<T, R>(*reader, self.root.paddr, T::LEVEL, 0, 0),
                start_vaddr@ as int,
                end_vaddr@ as int,
            ),
            r.1@ == freed_tables::<T>(
                table_dirs::<T, R>(*reader, self.root.paddr, T::LEVEL, 0, 0),
                start_vaddr@ as int,
                end_vaddr@ as int,
            ),
    {
        let mut slots: Vec<(PhysAddr, usize)> = Vec::new();
        let mut tables: Vec<(PhysAddr, usize, PhysAddr)> = Vec::new();
        collect_unmap::<T, R>(reader, self.root.paddr, T::LEVEL, 0, start_vaddr.raw(), end_vaddr.raw(), &mut slots, &mut tables);
        assert(slots@ =~= mapping_slots(
            table_leaves::<T, R>(*reader, self.root.paddr, T::LEVEL, 0, 0),
            start_vaddr@ as int,
            end_vaddr@ as int,
        ));
        assert(tables@ =~= freed_tables::<T>(
            table_dirs::<T, R>(*reader, self.root.paddr, T::LEVEL, 0, 0),
            start_vaddr@ as int,
            end_vaddr@ as int,
        ));
        (slots, tables)
    }

    /// Unmaps `[start_vaddr, end_vaddr)`, reading and writing tables through
    /// `mem`: the range must not be empty. Every valid final entry mapping an
    /// address in the range is written invalid, and so is every entry
    /// pointing at a table that lies wholly inside the range, whose frame is
    /// then handed back to the allocator; no other entry changes. Afterwards
    /// no valid final entry maps an address in the range, so `walk_valid`
    /// reports none there.
    pub fn deallocate_range<M: PteWriter<T::P>>(
        &mut self,
        start_vaddr: VirtAddr,
        end_vaddr: VirtAddr,
        mem: &mut M,
    ) -> (r: Result<(), PagingError>)
        requires
            walkable::<T>(),
            space_fits::<T>(),
        ensures
            start_vaddr@ >= end_vaddr@ ==> r == Err::<(), PagingError>(
                PagingError::InvalidRange("Start address must be less than end address"),
            ) && *final(mem) == *old(mem),
            start_vaddr@ < end_vaddr@ ==> r is Ok,
            final(self).root.paddr == old(self).root.paddr,
            final(self).root.allocator == old(self).root.allocator,
            start_vaddr@ < end_vaddr@ ==> forall|f: PhysAddr, i: usize|
                unmap_slots::<T, M>(*old(mem), old(self).root.paddr, start_vaddr@ as int, end_vaddr@ as int).contains(
                    (f, i),
                ) ==> !(#[trigger] final(mem).entry(f, i)).is_valid(),
            start_vaddr@ < end_vaddr@ ==> forall|f: PhysAddr, i: usize|
                !unmap_slots::<T, M>(*old(mem), old(self).root.paddr, start_vaddr@ as int, end_vaddr@ as int).contains(
                    (f, i),
                ) ==> #[trigger] final(mem).entry(f, i) == old(mem).entry(f, i),
            start_vaddr@ < end_vaddr@ ==> forall|k: int|
                0 <= k < table_leaves::<T, M>(*final(mem), old(self).root.paddr, T::LEVEL, 0, 0).len() ==> !maps_in(
                    #[trigger] table_leaves::<T, M>(*final(mem), old(self).root.paddr, T::LEVEL, 0, 0)[k],
                    start_vaddr@ as int,
                    end_vaddr@ as int,
                ),
            start_vaddr@ < end_vaddr@ ==> forall|i: int|
                0 <= i < in_range_valid(
                    whole_space(),
                    table_leaves::<T, M>(*final(mem), old(self).root.paddr, T::LEVEL, 0, 0),
                ).len() ==> !(start_vaddr@ <= (#[trigger] in_range_valid(
                    whole_space(),
                    table_leaves::<T, M>(*final(mem), old(self).root.paddr, T::LEVEL, 0, 0),
                )[i]).1 < end_vaddr@),
    {
        match crate::paging::deallocate_range_check(start_vaddr, end_vaddr) {
            Err(e) => return Err(e),
            Ok(()) => {},
        }
        let (mut slots, tables) = self.unmap_plan(start_vaddr, end_vaddr, &*mem);
        let ghost leaf_slots = slots@;
        let mut k: usize = 0;
        while k < tables.len()
            invariant
                0 <= k <= tables@.len(),
                slots@ == leaf_slots + tables@.subrange(0, k as int).map_values(
                    |t: (PhysAddr, usize, PhysAddr)| (t.0, t.1),
                ),
            decreases tables@.len() - k,
        {
            let (f, i, _) = tables[k];
            slots.push((f, i));
            assert(tables@.subrange(0, k + 1).map_values(|t: (PhysAddr, usize, PhysAddr)| (t.0, t.1))
                =~= tables@.subrange(0, k as int).map_values(|t: (PhysAddr, usize, PhysAddr)| (t.0, t.1)).push((f, i)));
            k = k + 1;
        }
        assert(tables@.subrange(0, tables@.len() as int) =~= tables@);
        let ghost before = *mem;
        invalidate_slots(mem, &slots);
        let mut j: usize = 0;
        while j < tables.len()
            decreases tables@.len() - j,
        {
            let (_, _, child) = tables[j];
            self.root.allocator.dealloc_frame(child);
            j = j + 1;
        }
        proof {
            lemma_unmapped::<T, M>(
                before,
                *mem,
                self.root.paddr,
                start_vaddr@ as int,
                end_vaddr@ as int,
                tables@.map_values(|t: (PhysAddr, usize, PhysAddr)| (t.0, t.1)),
            );
            let after = table_leaves::<T, M>(*mem, self.root.paddr, T::LEVEL, 0, 0);
            assert forall|k: int| 0 <= k < after.len() implies !(#[trigger] after[k].2.is_valid() && start_vaddr@
                <= after[k].1 < end_vaddr@) by {
                assert(!maps_in(after[k], start_vaddr@ as int, end_vaddr@ as int));
            }
            lemma_in_range_valid_avoids(whole_space(), after, start_vaddr@ as int, end_vaddr@ as int);
        }
        Ok(())
    }

    /// Physical address of the root frame.
    pub fn root_paddr(&self) -> (p: PhysAddr)
        ensures
            p == self.root.paddr,
    {
        self.root.paddr
    }
}

/// Writes the entries of table frames.
pub trait PteWriter<P>: PteReader<P> {
    /// Writes `pte` as entry `index` of the table held in the frame at
    /// `frame`, leaving every other entry as it was.
    fn write_pte(&mut self, frame: PhysAddr, index: usize, pte: P)
        ensures
            forall|f: PhysAddr, i: usize|
                #[trigger] final(self).entry(f, i) == (if f == frame && i == index {
                    pte
                } else {
                    old(self).entry(f, i)
                }),
    ;
}

/// The deepest a walk descends.
pub const MAX_WALK_DEPTH: usize = 8;

/// Reads the entries of table frames.
pub trait PteReader<P> {
    /// What the frame at `frame` holds at entry `index`.
    spec fn entry(&self, frame: PhysAddr, index: usize) -> P;

    /// Entry `index` of the table held in the frame at `frame`.
    fn read_pte(&self, frame: PhysAddr, index: usize) -> (r: P)
        ensures
            r == self.entry(frame, index),
    ;
}

/// A page table entry met by a walk: its level (the root is `LEVEL`), the
/// address it maps, and the entry.
#[derive(Debug)]
pub struct PteInfo<P> {
    pub level: usize,
    pub vaddr: VirtAddr,
    pub pte: P,
}

/// Where a walk stands in one table: the table's frame and level, the next
/// entry to read, and the address the table's region starts at.
#[derive(Clone, Copy, Debug)]
pub struct WalkState {
    pub frame: PhysAddr,
    pub level: usize,
    pub index: usize,
    pub base_vaddr: VirtAddr,
}

/// Number of entries in a table of geometry `T`.
pub open spec fn table_len_spec<T: TableGeneric>() -> nat {
    pow2(T::INDEX_BITS as nat)
}

/// Size of the region one entry of a table at `level` covers: a page at
/// level 1, and `2^INDEX_BITS` times more at each level above, so that a
/// root entry covers `PAGE_SIZE * 2^(INDEX_BITS * (LEVEL - 1))` bytes.
pub open spec fn entry_size_spec<T: TableGeneric>(level: int) -> int {
    T::PAGE_SIZE as int * pow2((T::INDEX_BITS * (level - 1)) as nat) as int
}

/// Address of entry `index` of a table at `level` whose region starts at
/// `base`.
pub open spec fn entry_vaddr_spec<T: TableGeneric>(index: int, level: int, base: int) -> int {
    base + index * entry_size_spec::<T>(level)
}

/// The region of a table one level up is that of `2^INDEX_BITS` entries
/// one level down.
pub proof fn lemma_entry_size_step<T: TableGeneric>(level: int)
    requires
        1 <= level,
    ensures
        entry_size_spec::<T>(level + 1) == entry_size_spec::<T>(level) * table_len_spec::<T>(),
{
    let ib = T::INDEX_BITS as int;
    assert(ib * (level - 1) + ib == ib * level && ib * (level - 1) >= 0) by (nonlinear_arith)
        requires
            level >= 1,
            ib >= 0,
    ;
    vstd::arithmetic::power2::lemma_pow2_adds((ib * (level - 1)) as nat, ib as nat);
    let a = pow2((ib * (level - 1)) as nat) as int;
    let b = pow2(ib as nat) as int;
    assert(T::PAGE_SIZE as int * (a * b) == (T::PAGE_SIZE as int * a) * b) by (nonlinear_arith);
}

/// An entry covers at least a byte when a page does.
pub proof fn lemma_entry_size_positive<T: TableGeneric>(level: int)
    requires
        1 <= T::PAGE_SIZE,
    ensures
        entry_size_spec::<T>(level) >= 1,
{
    let e = pow2((T::INDEX_BITS * (level - 1)) as nat) as int;
    vstd::arithmetic::power2::lemma_pow2_pos((T::INDEX_BITS * (level - 1)) as nat);
    assert(T::PAGE_SIZE as int * e >= 1) by (nonlinear_arith)
        requires
            T::PAGE_SIZE >= 1,
            e >= 1,
    ;
}

/// Whether the geometry `T` can be walked: at least one level, a page of at
/// least one byte, a table length that fits in a `usize`, and entry sizes
/// that fit in a `usize` at every level.
pub open spec fn walkable<T: TableGeneric>() -> bool {
    &&& 1 <= T::LEVEL
    &&& 1 <= T::PAGE_SIZE
    &&& T::INDEX_BITS < usize::BITS
    &&& forall|l: int| 1 <= l <= T::LEVEL ==> #[trigger] entry_size_spec::<T>(l) <= usize::MAX
}

/// A measure of the work left to a walk whose stack is `s`, in a geometry
/// with tables of `tl` entries: each table counts its unread entries and
/// itself, weighted by `(tl + 2)` to the power of its level less one.
pub open spec fn walk_measure(s: Seq<WalkState>, tl: nat) -> nat
    decreases s.len(),
{
    if s.len() == 0 {
        0
    } else {
        let top = s.last();
        walk_measure(s.drop_last(), tl) + ((tl + 1 - top.index) as nat) * vstd::arithmetic::power::pow(
            (tl + 2) as int,
            (top.level - 1) as nat,
        ) as nat
    }
}

/// Whether `s` is the stack of a walk in geometry `T`: its tables go down
/// one level at a time from the root, at most `MAX_WALK_DEPTH` of them, and
/// no table is read past its end.
pub open spec fn stack_ok<T: TableGeneric>(s: Seq<WalkState>) -> bool {
    &&& table_len_spec::<T>() < usize::MAX
    &&& s.len() <= MAX_WALK_DEPTH
    &&& forall|i: int|
        0 <= i < s.len() ==> {
            &&& (#[trigger] s[i]).level == T::LEVEL - i
            &&& s[i].level >= 1
            &&& s[i].index <= table_len_spec::<T>()
        }
}

/// `top` moved on to its next entry.
pub open spec fn advanced(top: WalkState) -> WalkState {
    WalkState { index: (top.index + 1) as usize, ..top }
}

/// The table that the entry `pte` of a table at `level` points at, whose
/// region starts at `va`.
pub open spec fn child_state<P: PageTableEntry>(pte: P, level: int, va: int) -> WalkState {
    WalkState {
        frame: PhysAddr::from_usize(pte.paddr_spec(true)),
        level: (level - 1) as usize,
        index: 0,
        base_vaddr: VirtAddr::from_usize(va as usize),
    }
}

/// Where the search for the next entry of a walk over `config` goes from
/// stack `s`: the stack it ends with, whether the walk is then over, and
/// the entry it reports (level, address, entry).
///
/// A table read to its end is left. Otherwise its next entry is read. An
/// entry whose address lies past the address space, or at or past the end
/// of the range, ends the walk; one whose whole region lies below the range
/// is passed over; an invalid entry, when those are not asked for, is
/// passed over. A valid entry above level 1 that is not a block is a table,
/// descended into (passed over at the depth limit) since its region meets
/// the range. Any other entry is reported when its address is in the range,
/// and passed over when it starts below it. An empty stack ends the walk.
pub open spec fn walk_next<T: TableGeneric, R: PteReader<T::P>>(
    config: WalkConfig,
    s: Seq<WalkState>,
    reader: R,
) -> (Seq<WalkState>, bool, Option<(usize, usize, T::P)>)
    decreases walk_measure(s, table_len_spec::<T>()),
    when stack_ok::<T>(s)
    via walk_next_decreases::<T, R>
{
    if s.len() == 0 {
        (s, true, None)
    } else {
        let top = s.last();
        if top.index >= table_len_spec::<T>() {
            walk_next::<T, R>(config, s.drop_last(), reader)
        } else {
            let pte = reader.entry(top.frame, top.index);
            let s1 = s.update(s.len() - 1, advanced(top));
            let va = entry_vaddr_spec::<T>(top.index as int, top.level as int, top.base_vaddr@ as int);
            if va > usize::MAX {
                (s1, true, None)
            } else if va >= config.end_vaddr@ {
                (s1, true, None)
            } else if va + entry_size_spec::<T>(top.level as int) <= config.start_vaddr@ {
                walk_next::<T, R>(config, s1, reader)
            } else if !pte.is_valid() && !config.visit_invalid {
                walk_next::<T, R>(config, s1, reader)
            } else if pte.is_valid() && top.level > 1 && !pte.is_huge_spec(true) {
                if s.len() < MAX_WALK_DEPTH {
                    walk_next::<T, R>(config, s1.push(child_state(pte, top.level as int, va)), reader)
                } else {
                    walk_next::<T, R>(config, s1, reader)
                }
            } else if va < config.start_vaddr@ {
                walk_next::<T, R>(config, s1, reader)
            } else {
                (s1, false, Some((top.level, va as usize, pte)))
            }
        }
    }
}

/// Leaving a table read to its end, moving on to the next entry, and then
/// descending into the table it points at each make the walk's measure
/// smaller, and keep the stack that of a walk.
proof fn lemma_walk_steps<T: TableGeneric, P: PageTableEntry>(s: Seq<WalkState>, pte: P, va: int)
    requires
        stack_ok::<T>(s),
        s.len() > 0,
    ensures
        s.last().index >= table_len_spec::<T>() ==> stack_ok::<T>(s.drop_last()) && walk_measure(
            s.drop_last(),
            table_len_spec::<T>(),
        ) < walk_measure(s, table_len_spec::<T>()),
        s.last().index < table_len_spec::<T>() ==> {
            let s1 = s.update(s.len() - 1, advanced(s.last()));
            &&& stack_ok::<T>(s1)
            &&& walk_measure(s1, table_len_spec::<T>()) < walk_measure(s, table_len_spec::<T>())
            &&& (s.last().level > 1 && s.len() < MAX_WALK_DEPTH) ==> {
                let s2 = s1.push(child_state(pte, s.last().level as int, va));
                &&& stack_ok::<T>(s2)
                &&& walk_measure(s2, table_len_spec::<T>()) < walk_measure(s, table_len_spec::<T>())
            }
        },
{
    let tl = table_len_spec::<T>();
    let top = s.last();
    let n = s.len() - 1;
    assert(s[n] == top);
    let p = vstd::arithmetic::power::pow((tl + 2) as int, (top.level - 1) as nat);
    vstd::arithmetic::power::lemma_pow_positive((tl + 2) as int, (top.level - 1) as nat);
    if top.index >= tl {
        let d = s.drop_last();
        assert forall|i: int| 0 <= i < d.len() implies {
            &&& (#[trigger] d[i]).level == T::LEVEL - i
            &&& d[i].level >= 1
            &&& d[i].index <= tl
        } by {
            assert(d[i] == s[i]);
        }
        assert(walk_measure(d, tl) < walk_measure(s, tl)) by (nonlinear_arith)
            requires
                walk_measure(s, tl) == walk_measure(d, tl) + ((tl + 1 - top.index) as nat) * p,
                top.index <= tl,
                p > 0,
        ;
    } else {
        let s1 = s.update(s.len() - 1, advanced(top));
        assert(s1.drop_last() =~= s.drop_last());
        assert forall|i: int| 0 <= i < s1.len() implies {
            &&& (#[trigger] s1[i]).level == T::LEVEL - i
            &&& s1[i].level >= 1
            &&& s1[i].index <= tl
        } by {
            if i < n {
                assert(s1[i] == s[i]);
            }
        }
        assert(s1.last() == advanced(top));
        assert(walk_measure(s1, tl) < walk_measure(s, tl)) by (nonlinear_arith)
            requires
                walk_measure(s1, tl) == walk_measure(s.drop_last(), tl) + ((tl + 1 - (top.index + 1)) as nat)
                    * p,
                walk_measure(s, tl) == walk_measure(s.drop_last(), tl) + ((tl + 1 - top.index) as nat) * p,
                p > 0,
                top.index < tl,
        ;
        if top.level > 1 && s.len() < MAX_WALK_DEPTH {
            let c = child_state(pte, top.level as int, va);
            let s2 = s1.push(c);
            assert(s2.drop_last() =~= s1);
            assert forall|i: int| 0 <= i < s2.len() implies {
                &&& (#[trigger] s2[i]).level == T::LEVEL - i
                &&& s2[i].level >= 1
                &&& s2[i].index <= tl
            } by {
                if i < s1.len() {
                    assert(s2[i] == s1[i]);
                }
            }
            let q = vstd::arithmetic::power::pow((tl + 2) as int, (top.level - 2) as nat);
            vstd::arithmetic::power::lemma_pow_positive((tl + 2) as int, (top.level - 2) as nat);
            vstd::arithmetic::power::lemma_pow_adds((tl + 2) as int, 1, (top.level - 2) as nat);
            vstd::arithmetic::power::lemma_pow1((tl + 2) as int);
            assert(walk_measure(s2, tl) < walk_measure(s, tl)) by (nonlinear_arith)
                requires
                    walk_measure(s2, tl) == walk_measure(s1, tl) + ((tl + 1) as nat) * q,
                    walk_measure(s1, tl) == walk_measure(s.drop_last(), tl) + ((tl + 1 - (top.index + 1))
                        as nat) * p,
                    walk_measure(s, tl) == walk_measure(s.drop_last(), tl) + ((tl + 1 - top.index) as nat)
                        * p,
                    p == (tl + 2) * q,
                    q > 0,
                    top.index < tl,
            ;
        }
    }
}

#[via_fn]
proof fn walk_next_decreases<T: TableGeneric, R: PteReader<T::P>>(
    config: WalkConfig,
    s: Seq<WalkState>,
    reader: R,
) {
    if stack_ok::<T>(s) && s.len() > 0 {
        let top = s.last();
        let pte = reader.entry(top.frame, top.index);
        let va = entry_vaddr_spec::<T>(top.index as int, top.level as int, top.base_vaddr@ as int);
        lemma_walk_steps::<T, T::P>(s, pte, va);
    }
}

/// The search for the next entry keeps the stack that of a walk, and when
/// it reports an entry it leaves less work than it found.
proof fn lemma_walk_next_props<T: TableGeneric, R: PteReader<T::P>>(
    config: WalkConfig,
    s: Seq<WalkState>,
    reader: R,
)
    requires
        stack_ok::<T>(s),
    ensures
        stack_ok::<T>(walk_next::<T, R>(config, s, reader).0),
        walk_next::<T, R>(config, s, reader).2 is Some ==> walk_measure(
            walk_next::<T, R>(config, s, reader).0,
            table_len_spec::<T>(),
        ) < walk_measure(s, table_len_spec::<T>()),
    decreases walk_measure(s, table_len_spec::<T>()),
{
    if s.len() > 0 {
        let top = s.last();
        let pte = reader.entry(top.frame, top.index);
        let va = entry_vaddr_spec::<T>(top.index as int, top.level as int, top.base_vaddr@ as int);
        lemma_walk_steps::<T, T::P>(s, pte, va);
        if top.index >= table_len_spec::<T>() {
            lemma_walk_next_props::<T, R>(config, s.drop_last(), reader);
        } else {
            let s1 = s.update(s.len() - 1, advanced(top));
            if va > usize::MAX {
            } else if va >= config.end_vaddr@ {
            } else if va + entry_size_spec::<T>(top.level as int) <= config.start_vaddr@ {
                lemma_walk_next_props::<T, R>(config, s1, reader);
            } else if !pte.is_valid() && !config.visit_invalid {
                lemma_walk_next_props::<T, R>(config, s1, reader);
            } else if pte.is_valid() && top.level > 1 && !pte.is_huge_spec(true) {
                if s.len() < MAX_WALK_DEPTH {
                    lemma_walk_next_props::<T, R>(
                        config,
                        s1.push(child_state(pte, top.level as int, va)),
                        reader,
                    );
                } else {
                    lemma_walk_next_props::<T, R>(config, s1, reader);
                }
            } else if va < config.start_vaddr@ {
                lemma_walk_next_props::<T, R>(config, s1, reader);
            }
        }
    }
}

/// The valid entries a walk over `config` reports from stack `s` (over at
/// once when `finished`), in order, each as its level, address and entry.
pub open spec fn walk_valid_entries<T: TableGeneric, R: PteReader<T::P>>(
    config: WalkConfig,
    s: Seq<WalkState>,
    finished: bool,
    reader: R,
) -> Seq<(usize, usize, T::P)>
    decreases walk_measure(s, table_len_spec::<T>()),
    when stack_ok::<T>(s)
    via walk_valid_entries_decreases::<T, R>
{
    if finished {
        Seq::empty()
    } else {
        let n = walk_next::<T, R>(config, s, reader);
        match n.2 {
            None => Seq::empty(),
            Some(e) => if e.2.is_valid() {
                seq![e] + walk_valid_entries::<T, R>(config, n.0, n.1, reader)
            } else {
                walk_valid_entries::<T, R>(config, n.0, n.1, reader)
            },
        }
    }
}

#[via_fn]
proof fn walk_valid_entries_decreases<T: TableGeneric, R: PteReader<T::P>>(
    config: WalkConfig,
    s: Seq<WalkState>,
    finished: bool,
    reader: R,
) {
    if stack_ok::<T>(s) {
        lemma_walk_next_props::<T, R>(config, s, reader);
    }
}

/// Address of the next entry that a walk with stack `s` reads.
pub open spec fn next_vaddr<T: TableGeneric>(s: Seq<WalkState>) -> int {
    entry_vaddr_spec::<T>(s.last().index as int, s.last().level as int, s.last().base_vaddr@ as int)
}

/// Whether each table on `s` below the root covers the region of the entry
/// its parent read last.
pub open spec fn stack_nested<T: TableGeneric>(s: Seq<WalkState>) -> bool {
    forall|i: int|
        1 <= i < s.len() ==> s[i - 1].index >= 1 && (#[trigger] s[i]).base_vaddr@ == entry_vaddr_spec::<T>(
            s[i - 1].index - 1,
            s[i - 1].level as int,
            s[i - 1].base_vaddr@ as int,
        )
}

/// The search for the next entry keeps each table within the region of its
/// parent's entry, and reports an entry at or after the address it starts
/// from, leaving the walk past that entry's address.
#[verifier::rlimit(40)]
proof fn lemma_walk_next_order<T: TableGeneric, R: PteReader<T::P>>(
    config: WalkConfig,
    s: Seq<WalkState>,
    reader: R,
)
    requires
        walkable::<T>(),
        stack_ok::<T>(s),
        stack_nested::<T>(s),
    ensures
        stack_nested::<T>(walk_next::<T, R>(config, s, reader).0),
        walk_next::<T, R>(config, s, reader).2 matches Some(e) ==> {
            &&& s.len() > 0
            &&& walk_next::<T, R>(config, s, reader).0.len() > 0
            &&& next_vaddr::<T>(s) <= e.1
            &&& e.1 < next_vaddr::<T>(walk_next::<T, R>(config, s, reader).0)
        },
    decreases walk_measure(s, table_len_spec::<T>()),
{
    if s.len() > 0 {
        let top = s.last();
        let n = s.len() - 1;
        let pte = reader.entry(top.frame, top.index);
        let va = entry_vaddr_spec::<T>(top.index as int, top.level as int, top.base_vaddr@ as int);
        let size = entry_size_spec::<T>(top.level as int);
        lemma_walk_steps::<T, T::P>(s, pte, va);
        lemma_nested_steps::<T, T::P>(s, pte);
        lemma_entry_size_positive::<T>(top.level as int);
        assert(s[n] == top);
        if top.index >= table_len_spec::<T>() {
            let d = s.drop_last();
            if d.len() > 0 {
                let par = s[n - 1];
                assert(d.last() == par);
                lemma_entry_size_step::<T>(top.level as int);
                let ps = entry_size_spec::<T>(par.level as int);
                assert(next_vaddr::<T>(d) == next_vaddr::<T>(s)) by (nonlinear_arith)
                    requires
                        next_vaddr::<T>(d) == par.base_vaddr@ + par.index * ps,
                        top.base_vaddr@ == par.base_vaddr@ + (par.index - 1) * ps,
                        next_vaddr::<T>(s) == top.base_vaddr@ + top.index * size,
                        ps == size * table_len_spec::<T>(),
                        top.index == table_len_spec::<T>(),
                ;
            }
            lemma_walk_next_order::<T, R>(config, d, reader);
        } else {
            let s1 = s.update(s.len() - 1, advanced(top));
            assert(s1.last() == advanced(top));
            assert(next_vaddr::<T>(s1) == va + size) by (nonlinear_arith)
                requires
                    next_vaddr::<T>(s1) == top.base_vaddr@ + (top.index + 1) * size,
                    va == top.base_vaddr@ + top.index * size,
            ;
            assert(next_vaddr::<T>(s) == va);
            if va > usize::MAX {
            } else if va >= config.end_vaddr@ {
            } else if va + size <= config.start_vaddr@ {
                lemma_walk_next_order::<T, R>(config, s1, reader);
            } else if !pte.is_valid() && !config.visit_invalid {
                lemma_walk_next_order::<T, R>(config, s1, reader);
            } else if pte.is_valid() && top.level > 1 && !pte.is_huge_spec(true) {
                if s.len() < MAX_WALK_DEPTH {
                    let c = child_state(pte, top.level as int, va);
                    let s2 = s1.push(c);
                    VirtAddr::lemma_from_usize(va as usize);
                    assert(s2.last() == c);
                    assert(next_vaddr::<T>(s2) == va);
                    lemma_walk_next_order::<T, R>(config, s2, reader);
                } else {
                    lemma_walk_next_order::<T, R>(config, s1, reader);
                }
            } else if va < config.start_vaddr@ {
                lemma_walk_next_order::<T, R>(config, s1, reader);
            }
        }
    }
}

/// A table whose root frame holds no valid entry maps nothing: all its
/// final entries are the root's own, invalid ones, so a walk over any range
/// reports none.
pub proof fn lemma_empty_root_maps_nothing<T: TableGeneric, R: PteReader<T::P>>(
    reader: R,
    root: PhysAddr,
    config: WalkConfig,
    from: nat,
)
    requires
        forall|i: usize| i < table_len_spec::<T>() ==> !(#[trigger] reader.entry(root, i)).is_valid(),
    ensures
        forall|k: int|
            0 <= k < table_leaves::<T, R>(reader, root, T::LEVEL, 0, from).len() ==> !(
            #[trigger] table_leaves::<T, R>(reader, root, T::LEVEL, 0, from)[k]).2.is_valid(),
        in_range_valid(config, table_leaves::<T, R>(reader, root, T::LEVEL, 0, from)) == Seq::<
            (usize, usize, T::P),
        >::empty(),
    decreases table_len_spec::<T>() - from,
{
    let w = table_leaves::<T, R>(reader, root, T::LEVEL, 0, from);
    if from < table_len_spec::<T>() && T::LEVEL != 0 {
        lemma_empty_root_maps_nothing::<T, R>(reader, root, config, from + 1);
        let rest = table_leaves::<T, R>(reader, root, T::LEVEL, 0, from + 1);
        let pte = reader.entry(root, from as usize);
        assert(!pte.is_valid());
        let va = 0 + from * entry_size_spec::<T>(T::LEVEL as int);
        assert(w == seq![(T::LEVEL, va, pte, root, from as usize)] + rest);
        assert forall|k: int| 0 <= k < w.len() implies !(#[trigger] w[k]).2.is_valid() by {
            if k > 0 {
                assert(w[k] == rest[k - 1]);
            }
        }
        assert(w.drop_first() =~= rest);
    }
}

/// The valid entries a walk reports from stack `s` lie at or after the
/// address it reads next, in strictly increasing order of address.
proof fn lemma_walk_entries_order<T: TableGeneric, R: PteReader<T::P>>(
    config: WalkConfig,
    s: Seq<WalkState>,
    finished: bool,
    reader: R,
)
    requires
        walkable::<T>(),
        stack_ok::<T>(s),
        stack_nested::<T>(s),
    ensures
        forall|i: int|
            0 <= i < walk_valid_entries::<T, R>(config, s, finished, reader).len() ==> s.len() > 0
                && next_vaddr::<T>(s) <= (#[trigger] walk_valid_entries::<T, R>(config, s, finished, reader)[i]).1,
        forall|i: int, j: int|
            0 <= i < j < walk_valid_entries::<T, R>(config, s, finished, reader).len() ==> (
            #[trigger] walk_valid_entries::<T, R>(config, s, finished, reader)[i]).1 < (
            #[trigger] walk_valid_entries::<T, R>(config, s, finished, reader)[j]).1,
    decreases walk_measure(s, table_len_spec::<T>()),
{
    if !finished {
        let n = walk_next::<T, R>(config, s, reader);
        lemma_walk_next_props::<T, R>(config, s, reader);
        lemma_walk_next_order::<T, R>(config, s, reader);
        if let Some(e) = n.2 {
            lemma_walk_entries_order::<T, R>(config, n.0, n.1, reader);
            let rest = walk_valid_entries::<T, R>(config, n.0, n.1, reader);
            let w = walk_valid_entries::<T, R>(config, s, finished, reader);
            if e.2.is_valid() {
                assert(w == seq![e] + rest);
                assert forall|i: int| 0 <= i < w.len() implies s.len() > 0 && next_vaddr::<T>(s) <= (
                #[trigger] w[i]).1 by {
                    if i > 0 {
                        assert(w[i] == rest[i - 1]);
                    }
                }
                assert forall|i: int, j: int| 0 <= i < j < w.len() implies (#[trigger] w[i]).1 < (
                #[trigger] w[j]).1 by {
                    assert(w[j] == rest[j - 1]);
                    if i > 0 {
                        assert(w[i] == rest[i - 1]);
                    }
                }
            }
        }
    }
}

/// A walk over any range reports the valid entries it meets in strictly
/// increasing order of the addresses they map.
pub proof fn lemma_walk_in_address_order<T: TableGeneric, R: PteReader<T::P>>(
    root: PhysAddr,
    config: WalkConfig,
    reader: R,
)
    requires
        walkable::<T>(),
    ensures
        forall|i: int, j: int|
            0 <= i < j < walk_valid_entries::<T, R>(
                config,
                walk_start::<T>(root, config).0,
                walk_start::<T>(root, config).1,
                reader,
            ).len() ==> (#[trigger] walk_valid_entries::<T, R>(
                config,
                walk_start::<T>(root, config).0,
                walk_start::<T>(root, config).1,
                reader,
            )[i]).1 < (#[trigger] walk_valid_entries::<T, R>(
                config,
                walk_start::<T>(root, config).0,
                walk_start::<T>(root, config).1,
                reader,
            )[j]).1,
{
    vstd::bits::lemma_usize_pow2_no_overflow(T::INDEX_BITS as nat);
    let st = walk_start::<T>(root, config).0;
    assert(stack_ok::<T>(st));
    assert(stack_nested::<T>(st));
    lemma_walk_entries_order::<T, R>(config, st, walk_start::<T>(root, config).1, reader);
}

/// The final entries of the table held in `frame` at `level`, whose region
/// starts at `base`, from its entry `from` on, in table order and depth
/// first: a valid entry above level 1 that is not a block stands for the
/// final entries of the table it points at, whose region starts at the
/// entry's address; any other entry is final. Each comes as its level, the
/// address it maps, the entry, and where the entry is held (the frame of
/// its table and its index there).
pub open spec fn table_leaves<T: TableGeneric, R: PteReader<T::P>>(
    reader: R,
    frame: PhysAddr,
    level: usize,
    base: int,
    from: nat,
) -> Seq<(usize, int, T::P, PhysAddr, usize)>
    decreases level, table_len_spec::<T>() - from,
{
    if from >= table_len_spec::<T>() || level == 0 {
        Seq::empty()
    } else {
        let pte = reader.entry(frame, from as usize);
        let va = base + from * entry_size_spec::<T>(level as int);
        let here = if pte.is_valid() && level > 1 && !pte.is_huge_spec(true) {
            table_leaves::<T, R>(reader, PhysAddr::from_usize(pte.paddr_spec(true)), (level - 1) as usize, va, 0)
        } else {
            seq![(level, va, pte, frame, from as usize)]
        };
        here + table_leaves::<T, R>(reader, frame, level, base, from + 1)
    }
}

/// The final entries that the tables on stack `s` still hold, from the top
/// table's next entry on, in the order a walk meets them.
pub open spec fn stack_leaves<T: TableGeneric, R: PteReader<T::P>>(reader: R, s: Seq<WalkState>) -> Seq<
    (usize, int, T::P, PhysAddr, usize),
>
    decreases s.len(),
{
    if s.len() == 0 {
        Seq::empty()
    } else {
        table_leaves::<T, R>(reader, s.last().frame, s.last().level, s.last().base_vaddr@ as int, s.last().index as nat)
            + stack_leaves::<T, R>(reader, s.drop_last())
    }
}

/// The valid entries of `es` whose address lies in the range of `config`,
/// in order.
pub open spec fn in_range_valid<P: PageTableEntry>(config: WalkConfig, es: Seq<(usize, int, P, PhysAddr, usize)>) -> Seq<
    (usize, usize, P),
>
    decreases es.len(),
{
    if es.len() == 0 {
        Seq::empty()
    } else {
        let e = es[0];
        let rest = in_range_valid(config, es.drop_first());
        if e.2.is_valid() && config.start_vaddr@ <= e.1 < config.end_vaddr@ {
            seq![(e.0, e.1 as usize, e.2)] + rest
        } else {
            rest
        }
    }
}

proof fn lemma_in_range_valid_concat<P: PageTableEntry>(config: WalkConfig, a: Seq<(usize, int, P, PhysAddr, usize)>, b: Seq<(usize, int, P, PhysAddr, usize)>)
    ensures
        in_range_valid(config, a + b) == in_range_valid(config, a) + in_range_valid(config, b),
    decreases a.len(),
{
    if a.len() == 0 {
        assert(a + b =~= b);
        assert(Seq::<(usize, usize, P)>::empty() + in_range_valid(config, b) =~= in_range_valid(config, b));
    } else {
        assert((a + b).drop_first() =~= a.drop_first() + b);
        assert((a + b)[0] == a[0]);
        lemma_in_range_valid_concat(config, a.drop_first(), b);
        let e = a[0];
        if e.2.is_valid() && config.start_vaddr@ <= e.1 < config.end_vaddr@ {
            assert(seq![(e.0, e.1 as usize, e.2)] + (in_range_valid(config, a.drop_first()) + in_range_valid(config, b))
                =~= (seq![(e.0, e.1 as usize, e.2)] + in_range_valid(config, a.drop_first())) + in_range_valid(config, b));
        }
    }
}

/// When no entry of `es` validly maps an address in `[start, end)`, none
/// of those `in_range_valid` keeps lies there.
pub proof fn lemma_in_range_valid_avoids<P: PageTableEntry>(
    config: WalkConfig,
    es: Seq<(usize, int, P, PhysAddr, usize)>,
    start: int,
    end: int,
)
    requires
        forall|k: int| 0 <= k < es.len() ==> !(#[trigger] es[k].2.is_valid() && start <= es[k].1 < end),
    ensures
        forall|i: int|
            0 <= i < in_range_valid(config, es).len() ==> !(start <= (#[trigger] in_range_valid(config, es)[i]).1
                < end),
    decreases es.len(),
{
    if es.len() > 0 {
        let d = es.drop_first();
        assert forall|k: int| 0 <= k < d.len() implies !(#[trigger] d[k].2.is_valid() && start <= d[k].1 < end) by {
            assert(d[k] == es[k + 1]);
        }
        lemma_in_range_valid_avoids(config, d, start, end);
        let r = in_range_valid(config, d);
        let out = in_range_valid(config, es);
        let e = es[0];
        let keep = e.2.is_valid() && config.start_vaddr@ <= e.1 < config.end_vaddr@;
        assert(out == (if keep {
            seq![(e.0, e.1 as usize, e.2)] + r
        } else {
            r
        }));
        assert(!(es[0].2.is_valid() && start <= es[0].1 < end));
        assert forall|i: int| 0 <= i < out.len() implies !(start <= (#[trigger] out[i]).1 < end) by {
            if keep {
                if i == 0 {
                    assert(out[0] == (e.0, e.1 as usize, e.2));
                } else {
                    assert(out[i] == r[i - 1]);
                }
            } else {
                assert(out[i] == r[i]);
            }
        }
    }
}

proof fn lemma_in_range_valid_none<P: PageTableEntry>(config: WalkConfig, es: Seq<(usize, int, P, PhysAddr, usize)>)
    requires
        forall|i: int| 0 <= i < es.len() ==> !(config.start_vaddr@ <= #[trigger] es[i].1 < config.end_vaddr@),
    ensures
        in_range_valid(config, es) == Seq::<(usize, usize, P)>::empty(),
    decreases es.len(),
{
    if es.len() > 0 {
        assert forall|i: int| 0 <= i < es.drop_first().len() implies !(config.start_vaddr@ <= #[trigger] es.drop_first()[i].1
            < config.end_vaddr@) by {
            assert(es.drop_first()[i] == es[i + 1]);
        }
        assert(!(config.start_vaddr@ <= es[0].1 < config.end_vaddr@));
        lemma_in_range_valid_none(config, es.drop_first());
    }
}

/// The final entries of a table from entry `from` on lie in the region of
/// those entries.
proof fn lemma_table_leaves_bounds<T: TableGeneric, R: PteReader<T::P>>(
    reader: R,
    frame: PhysAddr,
    level: usize,
    base: int,
    from: nat,
)
    requires
        1 <= T::PAGE_SIZE,
        1 <= level,
    ensures
        forall|i: int|
            0 <= i < table_leaves::<T, R>(reader, frame, level, base, from).len() ==> base + from
                * entry_size_spec::<T>(level as int) <= (#[trigger] table_leaves::<T, R>(
                reader,
                frame,
                level,
                base,
                from,
            )[i]).1 < base + table_len_spec::<T>() * entry_size_spec::<T>(level as int),
    decreases level, table_len_spec::<T>() - from,
{
    let tl = table_len_spec::<T>();
    let size = entry_size_spec::<T>(level as int);
    let w = table_leaves::<T, R>(reader, frame, level, base, from);
    if from < tl {
        let pte = reader.entry(frame, from as usize);
        let va = base + from * size;
        lemma_entry_size_positive::<T>(level as int);
        lemma_table_leaves_bounds::<T, R>(reader, frame, level, base, from + 1);
        let rest = table_leaves::<T, R>(reader, frame, level, base, from + 1);
        assert(base + from * size <= va && va + size == base + (from + 1) * size && base + (from + 1) * size <= base
            + tl * size && from * size <= (from + 1) * size) by (nonlinear_arith)
            requires
                va == base + from * size,
                from < tl,
                size >= 1,
        ;
        let here = if pte.is_valid() && level > 1 && !pte.is_huge_spec(true) {
            table_leaves::<T, R>(reader, PhysAddr::from_usize(pte.paddr_spec(true)), (level - 1) as usize, va, 0)
        } else {
            seq![(level, va, pte, frame, from as usize)]
        };
        assert(w == here + rest);
        if pte.is_valid() && level > 1 && !pte.is_huge_spec(true) {
            lemma_table_leaves_bounds::<T, R>(reader, PhysAddr::from_usize(pte.paddr_spec(true)), (level - 1) as usize, va, 0);
            lemma_entry_size_step::<T>(level - 1);
            assert(((level - 1) as usize) as int + 1 == level);
            assert(va + 0 * entry_size_spec::<T>(level - 1) == va);
            assert(va + tl * entry_size_spec::<T>(level - 1) == va + size) by (nonlinear_arith)
                requires
                    size == entry_size_spec::<T>(level - 1) * tl,
            ;
        }
        assert forall|i: int| 0 <= i < w.len() implies base + from * size <= (#[trigger] w[i]).1 < base + tl * size by {
            if i < here.len() {
                assert(w[i] == here[i]);
            } else {
                assert(w[i] == rest[i - here.len()]);
            }
        }
    }
}

/// Leaving a table read to its end, moving on to the next entry, and
/// descending into the table an entry points at keep each table within the
/// region of its parent's entry.
#[verifier::rlimit(30)]
proof fn lemma_nested_steps<T: TableGeneric, P: PageTableEntry>(s: Seq<WalkState>, pte: P)
    requires
        stack_ok::<T>(s),
        stack_nested::<T>(s),
        s.len() > 0,
    ensures
        stack_nested::<T>(s.drop_last()),
        stack_nested::<T>(s.update(s.len() - 1, advanced(s.last()))),
        next_vaddr::<T>(s) <= usize::MAX ==> stack_nested::<T>(
            s.update(s.len() - 1, advanced(s.last())).push(child_state(pte, s.last().level as int, next_vaddr::<T>(s))),
        ),
{
    let top = s.last();
    let n = s.len() - 1;
    let d = s.drop_last();
    assert forall|i: int| 1 <= i < d.len() implies d[i - 1].index >= 1 && (#[trigger] d[i]).base_vaddr@
        == entry_vaddr_spec::<T>(d[i - 1].index - 1, d[i - 1].level as int, d[i - 1].base_vaddr@ as int) by {
        assert(d[i] == s[i] && d[i - 1] == s[i - 1]);
    }
    let s1 = s.update(s.len() - 1, advanced(top));
    assert forall|i: int| 1 <= i < s1.len() implies s1[i - 1].index >= 1 && (#[trigger] s1[i]).base_vaddr@
        == entry_vaddr_spec::<T>(s1[i - 1].index - 1, s1[i - 1].level as int, s1[i - 1].base_vaddr@ as int) by {
        assert(s1[i].base_vaddr == s[i].base_vaddr);
        if i - 1 < n {
            assert(s1[i - 1] == s[i - 1]);
        }
    }
    let va = next_vaddr::<T>(s);
    if va <= usize::MAX {
        let c = child_state(pte, top.level as int, va);
        let s2 = s1.push(c);
        VirtAddr::lemma_from_usize(va as usize);
        assert(s[n] == top);
        assert forall|i: int| 1 <= i < s2.len() implies s2[i - 1].index >= 1 && (#[trigger] s2[i]).base_vaddr@
            == entry_vaddr_spec::<T>(s2[i - 1].index - 1, s2[i - 1].level as int, s2[i - 1].base_vaddr@ as int) by {
            if i < s1.len() {
                assert(s2[i] == s1[i] && s2[i - 1] == s1[i - 1]);
            } else {
                assert(s2[i] == c && s2[i - 1] == advanced(top));
            }
        }
    }
}

/// Every final entry still ahead of a walk lies at or after the address it
/// reads next.
proof fn lemma_stack_leaves_lower<T: TableGeneric, R: PteReader<T::P>>(reader: R, s: Seq<WalkState>)
    requires
        walkable::<T>(),
        stack_ok::<T>(s),
        stack_nested::<T>(s),
    ensures
        forall|i: int|
            0 <= i < stack_leaves::<T, R>(reader, s).len() ==> next_vaddr::<T>(s) <= (
            #[trigger] stack_leaves::<T, R>(reader, s)[i]).1,
    decreases s.len(),
{
    if s.len() > 0 {
        let top = s.last();
        let n = s.len() - 1;
        assert(s[n] == top);
        let d = s.drop_last();
        let tl = table_len_spec::<T>();
        let size = entry_size_spec::<T>(top.level as int);
        lemma_nested_steps::<T, T::P>(s, reader.entry(top.frame, top.index));
        assert forall|i: int| 0 <= i < d.len() implies {
            &&& (#[trigger] d[i]).level == T::LEVEL - i
            &&& d[i].level >= 1
            &&& d[i].index <= tl
        } by {
            assert(d[i] == s[i]);
        }
        lemma_stack_leaves_lower::<T, R>(reader, d);
        lemma_table_leaves_bounds::<T, R>(reader, top.frame, top.level, top.base_vaddr@ as int, top.index as nat);
        lemma_entry_size_positive::<T>(top.level as int);
        let t = table_leaves::<T, R>(reader, top.frame, top.level, top.base_vaddr@ as int, top.index as nat);
        let r = stack_leaves::<T, R>(reader, d);
        if d.len() > 0 {
            let par = s[n - 1];
            assert(d.last() == par);
            lemma_entry_size_step::<T>(top.level as int);
            let ps = entry_size_spec::<T>(par.level as int);
            assert(next_vaddr::<T>(s) <= next_vaddr::<T>(d)) by (nonlinear_arith)
                requires
                    next_vaddr::<T>(d) == par.base_vaddr@ + par.index * ps,
                    top.base_vaddr@ == par.base_vaddr@ + (par.index - 1) * ps,
                    next_vaddr::<T>(s) == top.base_vaddr@ + top.index * size,
                    ps == size * tl,
                    top.index <= tl,
                    size >= 1,
            ;
        }
        assert forall|i: int| 0 <= i < stack_leaves::<T, R>(reader, s).len() implies next_vaddr::<T>(s) <= (
        #[trigger] stack_leaves::<T, R>(reader, s)[i]).1 by {
            if i < t.len() {
                assert(stack_leaves::<T, R>(reader, s)[i] == t[i]);
            } else {
                assert(stack_leaves::<T, R>(reader, s)[i] == r[i - t.len()]);
            }
        }
    }
}

/// What one search for the next entry does to the valid final entries in
/// range still ahead: it reports the first of them, or finds that none is
/// left.
#[verifier::rlimit(60)]
proof fn lemma_walk_next_leaves<T: TableGeneric, R: PteReader<T::P>>(
    config: WalkConfig,
    s: Seq<WalkState>,
    reader: R,
)
    requires
        walkable::<T>(),
        T::LEVEL <= MAX_WALK_DEPTH,
        stack_ok::<T>(s),
        stack_nested::<T>(s),
    ensures
        walk_next::<T, R>(config, s, reader).2 is None ==> in_range_valid(
            config,
            stack_leaves::<T, R>(reader, s),
        ) == Seq::<(usize, usize, T::P)>::empty(),
        walk_next::<T, R>(config, s, reader).2 matches Some(e) ==> {
            &&& !walk_next::<T, R>(config, s, reader).1
            &&& in_range_valid(config, stack_leaves::<T, R>(reader, s)) == (if e.2.is_valid() {
                seq![e]
            } else {
                Seq::empty()
            }) + in_range_valid(config, stack_leaves::<T, R>(reader, walk_next::<T, R>(config, s, reader).0))
        },
    decreases walk_measure(s, table_len_spec::<T>()),
{
    if s.len() > 0 {
        let top = s.last();
        let n = s.len() - 1;
        assert(s[n] == top);
        let tl = table_len_spec::<T>();
        let pte = reader.entry(top.frame, top.index);
        let va = entry_vaddr_spec::<T>(top.index as int, top.level as int, top.base_vaddr@ as int);
        let size = entry_size_spec::<T>(top.level as int);
        let d = s.drop_last();
        lemma_walk_steps::<T, T::P>(s, pte, va);
        lemma_nested_steps::<T, T::P>(s, pte);
        lemma_entry_size_positive::<T>(top.level as int);
        let rest = stack_leaves::<T, R>(reader, d);
        if top.index >= tl {
            assert(stack_leaves::<T, R>(reader, s) =~= rest);
            lemma_walk_next_leaves::<T, R>(config, d, reader);
        } else {
            let s1 = s.update(s.len() - 1, advanced(top));
            assert(s1.last() == advanced(top));
            assert(s1.drop_last() =~= d);
            let after = table_leaves::<T, R>(reader, top.frame, top.level, top.base_vaddr@ as int, (top.index + 1) as nat);
            assert(stack_leaves::<T, R>(reader, s1) == after + rest);
            let is_table = pte.is_valid() && top.level > 1 && !pte.is_huge_spec(true);
            let child = child_state(pte, top.level as int, va);
            let here = if is_table {
                table_leaves::<T, R>(reader, PhysAddr::from_usize(pte.paddr_spec(true)), (top.level - 1) as usize, va, 0)
            } else {
                seq![(top.level, va, pte, top.frame, top.index)]
            };
            assert(table_leaves::<T, R>(reader, top.frame, top.level, top.base_vaddr@ as int, top.index as nat)
                == here + after);
            assert(stack_leaves::<T, R>(reader, s) == (here + after) + rest);
            assert((here + after) + rest =~= here + (after + rest));
            lemma_in_range_valid_concat(config, here, after + rest);
            let sel_s1 = in_range_valid(config, after + rest);
            if is_table {
                lemma_table_leaves_bounds::<T, R>(reader, PhysAddr::from_usize(pte.paddr_spec(true)), (top.level - 1) as usize, va, 0);
                lemma_entry_size_step::<T>(top.level - 1);
                assert(((top.level - 1) as usize) as int + 1 == top.level);
                assert(va + 0 * entry_size_spec::<T>(top.level - 1) == va);
                assert(va + tl * entry_size_spec::<T>(top.level - 1) == va + size) by (nonlinear_arith)
                    requires
                        size == entry_size_spec::<T>(top.level - 1) * tl,
                ;
            }
            assert forall|i: int| 0 <= i < here.len() implies va <= (#[trigger] here[i]).1 < va + size by {
                if !is_table {
                    assert(here[i] == (top.level, va, pte, top.frame, top.index));
                }
            }
            if va > usize::MAX || va >= config.end_vaddr@ {
                lemma_stack_leaves_lower::<T, R>(reader, s);
                assert(next_vaddr::<T>(s) == va);
                let all = stack_leaves::<T, R>(reader, s);
                assert forall|i: int| 0 <= i < all.len() implies !(config.start_vaddr@ <= #[trigger] all[i].1
                    < config.end_vaddr@) by {
                    assert(va <= all[i].1);
                }
                lemma_in_range_valid_none(config, all);
            } else if va + size <= config.start_vaddr@ {
                lemma_in_range_valid_none(config, here);
                assert(Seq::<(usize, usize, T::P)>::empty() + sel_s1 =~= sel_s1);
                lemma_walk_next_leaves::<T, R>(config, s1, reader);
            } else if !pte.is_valid() && !config.visit_invalid {
                assert(here == seq![(top.level, va, pte, top.frame, top.index)]);
                assert(here.drop_first() =~= Seq::<(usize, int, T::P, PhysAddr, usize)>::empty());
                assert(in_range_valid(config, here) == in_range_valid(config, here.drop_first()));
                assert(Seq::<(usize, usize, T::P)>::empty() + sel_s1 =~= sel_s1);
                lemma_walk_next_leaves::<T, R>(config, s1, reader);
            } else if is_table {
                assert(s.len() < MAX_WALK_DEPTH);
                let s2 = s1.push(child);
                assert(s2.last() == child);
                assert(s2.drop_last() =~= s1);
                VirtAddr::lemma_from_usize(va as usize);
                assert(child.base_vaddr@ == va);
                assert(stack_leaves::<T, R>(reader, s2) == here + (after + rest));
                lemma_walk_next_leaves::<T, R>(config, s2, reader);
            } else if va < config.start_vaddr@ {
                assert(here == seq![(top.level, va, pte, top.frame, top.index)]);
                assert(here.drop_first() =~= Seq::<(usize, int, T::P, PhysAddr, usize)>::empty());
                assert(in_range_valid(config, here) == in_range_valid(config, here.drop_first()));
                assert(Seq::<(usize, usize, T::P)>::empty() + sel_s1 =~= sel_s1);
                lemma_walk_next_leaves::<T, R>(config, s1, reader);
            } else {
                assert(here == seq![(top.level, va, pte, top.frame, top.index)]);
                assert(here.drop_first() =~= Seq::<(usize, int, T::P, PhysAddr, usize)>::empty());
                assert(in_range_valid(config, here.drop_first()) == Seq::<(usize, usize, T::P)>::empty());
                if pte.is_valid() {
                    assert(in_range_valid(config, here) =~= seq![(top.level, va as usize, pte)]);
                } else {
                    assert(in_range_valid(config, here) =~= Seq::<(usize, usize, T::P)>::empty());
                }
            }
        }
    }
}

/// A walk from stack `s` reports exactly the valid final entries still
/// ahead whose address lies in the range, in order.
proof fn lemma_walk_valid_leaves<T: TableGeneric, R: PteReader<T::P>>(
    config: WalkConfig,
    s: Seq<WalkState>,
    finished: bool,
    reader: R,
)
    requires
        walkable::<T>(),
        T::LEVEL <= MAX_WALK_DEPTH,
        stack_ok::<T>(s),
        stack_nested::<T>(s),
    ensures
        walk_valid_entries::<T, R>(config, s, finished, reader) == (if finished {
            Seq::empty()
        } else {
            in_range_valid(config, stack_leaves::<T, R>(reader, s))
        }),
    decreases walk_measure(s, table_len_spec::<T>()),
{
    if !finished {
        let n = walk_next::<T, R>(config, s, reader);
        lemma_walk_next_props::<T, R>(config, s, reader);
        lemma_walk_next_order::<T, R>(config, s, reader);
        lemma_walk_next_leaves::<T, R>(config, s, reader);
        if let Some(e) = n.2 {
            lemma_walk_valid_leaves::<T, R>(config, n.0, n.1, reader);
            if !e.2.is_valid() {
                assert(Seq::<(usize, usize, T::P)>::empty() + in_range_valid(config, stack_leaves::<T, R>(reader, n.0))
                    =~= in_range_valid(config, stack_leaves::<T, R>(reader, n.0)));
            }
        }
    }
}

/// A walk over `config` of the table rooted at `root` reports exactly the
/// valid final entries of the table tree (valid entries at level 1 or
/// mapping blocks) whose address lies in `[start_vaddr, end_vaddr)`, in
/// table order, and nothing when the range is empty; this holds for tables
/// of at most `MAX_WALK_DEPTH` levels, which a walk never needs to cut short.
pub proof fn lemma_walk_reports_leaves_in_range<T: TableGeneric, R: PteReader<T::P>>(
    root: PhysAddr,
    config: WalkConfig,
    reader: R,
)
    requires
        walkable::<T>(),
        T::LEVEL <= MAX_WALK_DEPTH,
    ensures
        walk_valid_entries::<T, R>(config, walk_start::<T>(root, config).0, walk_start::<T>(root, config).1, reader)
            == (if config.start_vaddr@ < config.end_vaddr@ {
            in_range_valid(config, table_leaves::<T, R>(reader, root, T::LEVEL, 0, 0))
        } else {
            Seq::empty()
        }),
{
    vstd::bits::lemma_usize_pow2_no_overflow(T::INDEX_BITS as nat);
    let st = walk_start::<T>(root, config).0;
    assert(stack_ok::<T>(st));
    assert(stack_nested::<T>(st));
    lemma_walk_valid_leaves::<T, R>(config, st, walk_start::<T>(root, config).1, reader);
    if config.start_vaddr@ < config.end_vaddr@ {
        VirtAddr::lemma_from_usize(0);
        assert(st.drop_last() =~= Seq::<WalkState>::empty());
        assert(st.last().base_vaddr@ == 0 && st.last().index == 0 && st.last().frame == root && st.last().level
            == T::LEVEL);
        assert(stack_leaves::<T, R>(reader, st.drop_last()) == Seq::<(usize, int, T::P, PhysAddr, usize)>::empty());
        assert(stack_leaves::<T, R>(reader, st) == table_leaves::<T, R>(reader, root, T::LEVEL, 0, 0) + Seq::<
            (usize, int, T::P, PhysAddr, usize),
        >::empty());
        assert(stack_leaves::<T, R>(reader, st) =~= table_leaves::<T, R>(reader, root, T::LEVEL, 0, 0));
    }
}

/// A walk over the whole address space that reports valid entries only.
pub open spec fn whole_space() -> WalkConfig {
    WalkConfig {
        start_vaddr: VirtAddr::from_usize(0),
        end_vaddr: VirtAddr::from_usize(usize::MAX),
        visit_invalid: false,
    }
}

/// Where a walk over `config` of the table rooted at `root` starts: at the
/// root's first entry, or over at once when the range is empty.
pub open spec fn walk_start<T: TableGeneric>(root: PhysAddr, config: WalkConfig) -> (Seq<WalkState>, bool) {
    if config.start_vaddr@ < config.end_vaddr@ {
        (
            seq![WalkState { frame: root, level: T::LEVEL, index: 0, base_vaddr: VirtAddr::from_usize(0) }],
            false,
        )
    } else {
        (Seq::empty(), true)
    }
}

/// Size of the region one entry of a table at `level` covers.
pub fn entry_size_of<T: TableGeneric>(level: usize) -> (r: usize)
    requires
        walkable::<T>(),
        1 <= level <= T::LEVEL,
    ensures
        r == entry_size_spec::<T>(level as int),
        r >= 1,
{
    proof {
        lemma_entry_size_positive::<T>(level as int);
        assert(pow2(0) == 1) by {
            vstd::arithmetic::power2::lemma2_to64();
        }
        assert((T::INDEX_BITS * (1int - 1)) as nat == 0nat);
        assert(entry_size_spec::<T>(1) == T::PAGE_SIZE as int * pow2(0nat) as int);
        assert(entry_size_spec::<T>(1) == T::PAGE_SIZE);
        vstd::bits::lemma_usize_pow2_no_overflow(T::INDEX_BITS as nat);
        vstd::bits::lemma_usize_shl_is_mul(1, T::INDEX_BITS);
    }
    let tl: usize = 1usize << T::INDEX_BITS;
    let mut size: usize = T::PAGE_SIZE;
    let mut k: usize = 1;
    while k < level
        invariant
            walkable::<T>(),
            1 <= k <= level <= T::LEVEL,
            tl == table_len_spec::<T>(),
            size == entry_size_spec::<T>(k as int),
        decreases level - k,
    {
        proof {
            lemma_entry_size_step::<T>(k as int);
            assert(entry_size_spec::<T>(k + 1) <= usize::MAX);
        }
        size = size * tl;
        k = k + 1;
    }
    size
}

/// What a walk's stack holds, in order from the root's table.
pub uninterp spec fn walk_stack(v: heapless::Vec<WalkState, 8>) -> Seq<WalkState>;

/// `heapless::Vec::new`: an empty stack.
#[verifier::external_body]
fn walk_stack_new() -> (v: heapless::Vec<WalkState, 8>)
    ensures
        walk_stack(v) == Seq::<WalkState>::empty(),
{
    heapless::Vec::new()
}

/// `heapless::Vec::push`: appends when fewer than 8 items are held, and
/// otherwise hands the item back and leaves the stack as it was.
#[verifier::external_body]
fn walk_stack_push(v: &mut heapless::Vec<WalkState, 8>, x: WalkState) -> (r: Result<(), WalkState>)
    ensures
        walk_stack(*old(v)).len() < 8 ==> (r is Ok && walk_stack(*final(v)) == walk_stack(*old(v)).push(x)),
        walk_stack(*old(v)).len() >= 8 ==> (r is Err && walk_stack(*final(v)) == walk_stack(*old(v))),
{
    v.push(x)
}

/// `heapless::Vec::pop`: removes and returns the last item, if any.
#[verifier::external_body]
fn walk_stack_pop(v: &mut heapless::Vec<WalkState, 8>) -> (r: Option<WalkState>)
    ensures
        walk_stack(*old(v)).len() > 0 ==> (r == Some(walk_stack(*old(v)).last()) && walk_stack(*final(v))
            == walk_stack(*old(v)).drop_last()),
        walk_stack(*old(v)).len() == 0 ==> (r is None && walk_stack(*final(v)) == walk_stack(*old(v))),
{
    v.pop()
}

/// `heapless::Vec::as_slice`: the items held, in order.
#[verifier::external_body]
fn walk_stack_as_slice(v: &heapless::Vec<WalkState, 8>) -> (s: &[WalkState])
    ensures
        s@ == walk_stack(*v),
{
    v.as_slice()
}

/// An iteration over the entries of a page table whose addresses lie in a
/// range, depth first: tables are descended into rather than reported.
pub struct PageTableWalker<T: TableGeneric> {
    pub config: WalkConfig,
    pub stack: heapless::Vec<WalkState, 8>,
    pub current_vaddr: VirtAddr,
    pub finished: bool,
    pub marker: core::marker::PhantomData<T>,
}

impl<T: TableGeneric> PageTableWalker<T> {
    /// Whether the stack is that of a walk: its tables go down one level at
    /// a time from the root, at most `MAX_WALK_DEPTH` of them, and no table
    /// is read past its end.
    pub open spec fn wf(&self) -> bool {
        stack_ok::<T>(walk_stack(self.stack))
    }

    /// A walk of `page_table` over `config`: it starts at the root with the
    /// first entry, and is over at once when the range is empty.
    pub fn new<A: FrameAllocator>(page_table: &PageTable<T, A>, config: WalkConfig) -> (w: Self)
        requires
            walkable::<T>(),
        ensures
            w.wf(),
            w.config == config,
            w.current_vaddr == config.start_vaddr,
            config.start_vaddr@ >= config.end_vaddr@ ==> w.finished && walk_stack(w.stack).len() == 0,
            config.start_vaddr@ < config.end_vaddr@ ==> !w.finished && walk_stack(w.stack).len() == 1
                && walk_stack(w.stack)[0].frame == page_table.root.paddr && walk_stack(w.stack)[0].level == T::LEVEL
                && walk_stack(w.stack)[0].index == 0 && walk_stack(w.stack)[0].base_vaddr@ == 0,
            (walk_stack(w.stack), w.finished) == walk_start::<T>(page_table.root.paddr, config),
    {
        proof {
            vstd::bits::lemma_usize_pow2_no_overflow(T::INDEX_BITS as nat);
        }
        let mut walker = PageTableWalker {
            config,
            stack: walk_stack_new(),
            current_vaddr: config.start_vaddr,
            finished: false,
            marker: core::marker::PhantomData,
        };
        proof {
            VirtAddr::lemma_from_usize(0);
        }
        if config.start_vaddr.raw() < config.end_vaddr.raw() {
            let _ = walk_stack_push(
                &mut walker.stack,
                WalkState {
                    frame: page_table.root.paddr,
                    level: T::LEVEL,
                    index: 0,
                    base_vaddr: VirtAddr::new(0),
                },
            );
        } else {
            walker.finished = true;
        }
        assert(walk_stack(walker.stack) =~= walk_start::<T>(page_table.root.paddr, config).0);
        walker
    }

    /// The next entry of the walk, reading tables through `reader`.
    ///
    /// Entries are visited in table order, depth first; entry `i` of a table
    /// at level `l` stands at its table's start plus `i` times the region an
    /// entry at level `l` covers (`entry_size_spec`). An entry whose region
    /// lies wholly below the range is skipped; the first at or past its end
    /// ends the walk. Invalid entries are skipped unless the configuration
    /// asks for them. A valid entry above level 1 that is not a block is a
    /// table, descended into (unless the walk is already `MAX_WALK_DEPTH`
    /// deep) rather than reported. Other entries are reported when their
    /// address is in the range. When every table is read the walk is over.
    pub fn find_next_entry<R: PteReader<T::P>>(&mut self, reader: &R) -> (r: Option<PteInfo<T::P>>)
        requires
            walkable::<T>(),
            old(self).wf(),
        ensures
            final(self).wf(),
            final(self).config == old(self).config,
            old(self).finished ==> r is None && final(self).finished,
            r is None ==> final(self).finished,
            r matches Some(info) ==> {
                &&& old(self).config.start_vaddr@ <= info.vaddr@ < old(self).config.end_vaddr@
                &&& 1 <= info.level <= T::LEVEL
                &&& (info.pte.is_valid() || old(self).config.visit_invalid)
                &&& walk_measure(walk_stack(final(self).stack), table_len_spec::<T>()) < walk_measure(
                    walk_stack(old(self).stack),
                    table_len_spec::<T>(),
                )
            },
            !old(self).finished ==> ({
                let n = walk_next::<T, R>(old(self).config, walk_stack(old(self).stack), *reader);
                &&& walk_stack(final(self).stack) == n.0
                &&& final(self).finished == n.1
                &&& match r {
                    None => n.2 is None,
                    Some(info) => n.2 == Some((info.level, info.vaddr@, info.pte)),
                }
            }),
    {
        proof {
            vstd::bits::lemma_usize_pow2_no_overflow(T::INDEX_BITS as nat);
            vstd::bits::lemma_usize_shl_is_mul(1, T::INDEX_BITS);
        }
        let tl: usize = 1usize << T::INDEX_BITS;
        loop
            invariant
                walkable::<T>(),
                self.wf(),
                self.config == old(self).config,
                tl == table_len_spec::<T>(),
                old(self).finished ==> self.finished,
                walk_measure(walk_stack(self.stack), tl as nat) <= walk_measure(walk_stack(old(self).stack), tl as nat),
                !old(self).finished ==> !self.finished && walk_next::<T, R>(
                    self.config,
                    walk_stack(self.stack),
                    *reader,
                ) == walk_next::<T, R>(old(self).config, walk_stack(old(self).stack), *reader),
            decreases walk_measure(walk_stack(self.stack), tl as nat),
        {
            if self.finished {
                return None;
            }
            let n = walk_stack_as_slice(&self.stack).len();
            if n == 0 {
                self.finished = true;
                return None;
            }
            let top = walk_stack_as_slice(&self.stack)[n - 1];
            let ghost s0 = walk_stack(self.stack);
            let ghost p = vstd::arithmetic::power::pow((tl + 2) as int, (top.level - 1) as nat);
            proof {
                vstd::arithmetic::power::lemma_pow_positive((tl + 2) as int, (top.level - 1) as nat);
            }
            if top.index >= tl {
                let _ = walk_stack_pop(&mut self.stack);
                assert(s0.drop_last() =~= walk_stack(self.stack));
                assert(s0.last() == top);
                assert(walk_measure(walk_stack(self.stack), tl as nat) < walk_measure(s0, tl as nat)) by (nonlinear_arith)
                    requires
                        walk_measure(s0, tl as nat) == walk_measure(walk_stack(self.stack), tl as nat) + ((tl + 1
                            - top.index) as nat) * p,
                        top.index <= tl,
                        p > 0,
                ;
                continue;
            }
            let pte = reader.read_pte(top.frame, top.index);
            let idx = top.index;
            let next_top = WalkState {
                frame: top.frame,
                level: top.level,
                index: idx + 1,
                base_vaddr: top.base_vaddr,
            };
            let _ = walk_stack_pop(&mut self.stack);
            let _ = walk_stack_push(&mut self.stack, next_top);
            let ghost s1 = walk_stack(self.stack);
            assert(next_top == advanced(top));
            assert(s1 == s0.update(s0.len() - 1, advanced(s0.last())));
            assert(s1.drop_last() =~= s0.drop_last());
            assert(walk_measure(s1, tl as nat) < walk_measure(s0, tl as nat)) by (nonlinear_arith)
                requires
                    walk_measure(s1, tl as nat) == walk_measure(s0.drop_last(), tl as nat) + ((tl + 1
                        - (idx + 1)) as nat) * p,
                    walk_measure(s0, tl as nat) == walk_measure(s0.drop_last(), tl as nat) + ((tl + 1
                        - idx) as nat) * p,
                    p > 0,
                    idx < tl,
            ;
            let vaddr = match Self::entry_vaddr(idx, top.level, top.base_vaddr) {
                Some(v) => v,
                None => {
                    self.finished = true;
                    return None;
                },
            };
            if vaddr >= self.config.end_vaddr.raw() {
                self.finished = true;
                return None;
            }
            let size = entry_size_of::<T>(top.level);
            let start = self.config.start_vaddr.raw();
            if vaddr < start && size <= start - vaddr {
                continue;
            }
            let valid = pte.valid();
            if !valid && !self.config.visit_invalid {
                continue;
            }
            if valid && top.level > 1 && !pte.is_huge(true) {
                if n < MAX_WALK_DEPTH {
                    let child = WalkState {
                        frame: pte.paddr(true),
                        level: top.level - 1,
                        index: 0,
                        base_vaddr: VirtAddr::new(vaddr),
                    };
                    proof {
                        PhysAddr::lemma_from_usize(pte.paddr_spec(true));
                        VirtAddr::lemma_from_usize(vaddr);
                        assert(child == child_state(pte, top.level as int, vaddr as int));
                    }
                    let _ = walk_stack_push(&mut self.stack, child);
                    let ghost q = vstd::arithmetic::power::pow((tl + 2) as int, (top.level - 2) as nat);
                    proof {
                        vstd::arithmetic::power::lemma_pow_positive((tl + 2) as int, (top.level - 2) as nat);
                        vstd::arithmetic::power::lemma_pow_adds((tl + 2) as int, 1, (top.level - 2) as nat);
                        vstd::arithmetic::power::lemma_pow1((tl + 2) as int);
                        assert(walk_stack(self.stack).drop_last() =~= s1);
                    }
                    assert(walk_measure(walk_stack(self.stack), tl as nat) < walk_measure(s0, tl as nat)) by (nonlinear_arith)
                        requires
                            walk_measure(walk_stack(self.stack), tl as nat) == walk_measure(s1, tl as nat) + ((tl
                                + 1) as nat) * q,
                            walk_measure(s1, tl as nat) == walk_measure(s0.drop_last(), tl as nat) + ((tl
                                + 1 - (idx + 1)) as nat) * p,
                            walk_measure(s0, tl as nat) == walk_measure(s0.drop_last(), tl as nat) + ((tl
                                + 1 - idx) as nat) * p,
                            p == (tl + 2) * q,
                            q > 0,
                            idx < tl,
                    ;
                }
                continue;
            }
            if vaddr < start {
                continue;
            }
            return Some(PteInfo { level: top.level, vaddr: VirtAddr::new(vaddr), pte });
        }
    }

    /// Address of entry `index` of a table at `level` whose region starts at
    /// `base`; `None` past the end of the address space.
    fn entry_vaddr(index: usize, level: usize, base: VirtAddr) -> (r: Option<usize>)
        requires
            walkable::<T>(),
            1 <= level <= T::LEVEL,
        ensures
            r == (if entry_vaddr_spec::<T>(index as int, level as int, base@ as int) <= usize::MAX {
                Some(entry_vaddr_spec::<T>(index as int, level as int, base@ as int) as usize)
            } else {
                None
            }),
    {
        let size = entry_size_of::<T>(level);
        assert(size >= 1 ==> index <= index * size) by (nonlinear_arith);
        match index.checked_mul(size) {
            Some(off) => base.raw().checked_add(off),
            None => None,
        }
    }
}

impl<T: TableGeneric, A: FrameAllocator> PageTable<T, A> {
    /// A walk of the table over `config`.
    pub fn walk_all(&self, config: WalkConfig) -> (w: PageTableWalker<T>)
        requires
            walkable::<T>(),
        ensures
            w.wf(),
            w.config == config,
    {
        PageTableWalker::new(self, config)
    }

    /// The valid entries that a walk over `config` reports, reading tables
    /// through `reader`, in increasing order of address: for tables of at
    /// most `MAX_WALK_DEPTH` levels, exactly the valid final entries of the
    /// table tree (never a pointer to a table) whose address lies in
    /// `[start_vaddr, end_vaddr)`.
    pub fn walk<R: PteReader<T::P>>(&self, config: WalkConfig, reader: &R) -> (r: Vec<PteInfo<T::P>>)
        requires
            walkable::<T>(),
        ensures
            forall|i: int|
                0 <= i < r@.len() ==> config.start_vaddr@ <= (#[trigger] r@[i]).vaddr@ < config.end_vaddr@
                    && 1 <= r@[i].level <= T::LEVEL && r@[i].pte.is_valid(),
            forall|i: int, j: int| 0 <= i < j < r@.len() ==> (#[trigger] r@[i]).vaddr@ < (#[trigger] r@[j]).vaddr@,
            T::LEVEL <= MAX_WALK_DEPTH ==> r@.map_values(|i: PteInfo<T::P>| (i.level, i.vaddr@, i.pte)) == (
            if config.start_vaddr@ < config.end_vaddr@ {
                in_range_valid(config, table_leaves::<T, R>(*reader, self.root.paddr, T::LEVEL, 0, 0))
            } else {
                Seq::empty()
            }),
            r@.map_values(|i: PteInfo<T::P>| (i.level, i.vaddr@, i.pte)) == walk_valid_entries::<T, R>(
                config,
                walk_start::<T>(self.root.paddr, config).0,
                walk_start::<T>(self.root.paddr, config).1,
                *reader,
            ),
    {
        let mut walker = PageTableWalker::new(self, config);
        let mut out: Vec<PteInfo<T::P>> = Vec::new();
        let ghost total = walk_valid_entries::<T, R>(config, walk_stack(walker.stack), walker.finished, *reader);
        loop
            invariant
                walkable::<T>(),
                walker.wf(),
                walker.config == config,
                forall|i: int|
                    0 <= i < out@.len() ==> config.start_vaddr@ <= (#[trigger] out@[i]).vaddr@
                        < config.end_vaddr@ && 1 <= out@[i].level <= T::LEVEL && out@[i].pte.is_valid(),
                out@.map_values(|i: PteInfo<T::P>| (i.level, i.vaddr@, i.pte)) + walk_valid_entries::<
                    T,
                    R,
                >(config, walk_stack(walker.stack), walker.finished, *reader) == total,
                total == walk_valid_entries::<T, R>(
                    config,
                    walk_start::<T>(self.root.paddr, config).0,
                    walk_start::<T>(self.root.paddr, config).1,
                    *reader,
                ),
            decreases walk_measure(walk_stack(walker.stack), table_len_spec::<T>()),
        {
            let ghost before = out@.map_values(|i: PteInfo<T::P>| (i.level, i.vaddr@, i.pte));
            let ghost s0 = walk_stack(walker.stack);
            let ghost f0 = walker.finished;
            match walker.find_next_entry(reader) {
                Some(info) => {
                    let ghost e = (info.level, info.vaddr@, info.pte);
                    let ghost rest = walk_valid_entries::<T, R>(config, walk_stack(walker.stack), walker.finished, *reader);
                    if info.pte.valid() {
                        out.push(info);
                        assert(out@.map_values(|i: PteInfo<T::P>| (i.level, i.vaddr@, i.pte)) =~= before.push(e));
                        assert(before + (seq![e] + rest) =~= before.push(e) + rest);
                    } else {
                        assert(out@.map_values(|i: PteInfo<T::P>| (i.level, i.vaddr@, i.pte)) =~= before);
                    }
                },
                None => {
                    assert(walk_valid_entries::<T, R>(config, s0, f0, *reader) == Seq::<
                        (usize, usize, T::P),
                    >::empty());
                    assert(before + Seq::<(usize, usize, T::P)>::empty() =~= before);
                    proof {
                        lemma_walk_in_address_order::<T, R>(self.root.paddr, config, *reader);
                        if T::LEVEL <= MAX_WALK_DEPTH {
                            lemma_walk_reports_leaves_in_range::<T, R>(self.root.paddr, config, *reader);
                        }
                        assert forall|i: int, j: int| 0 <= i < j < out@.len() implies (
                        #[trigger] out@[i]).vaddr@ < (#[trigger] out@[j]).vaddr@ by {
                            assert(before[i] == total[i] && before[j] == total[j]);
                        }
                    }
                    return out;
                },
            }
        }
    }

    /// The valid final entries of the whole address space, in increasing
    /// order of address.
    pub fn walk_valid<R: PteReader<T::P>>(&self, reader: &R) -> (r: Vec<PteInfo<T::P>>)
        requires
            walkable::<T>(),
        ensures
            forall|i: int|
                0 <= i < r@.len() ==> 1 <= (#[trigger] r@[i]).level <= T::LEVEL && r@[i].pte.is_valid(),
            forall|i: int, j: int| 0 <= i < j < r@.len() ==> (#[trigger] r@[i]).vaddr@ < (#[trigger] r@[j]).vaddr@,
            T::LEVEL <= MAX_WALK_DEPTH ==> r@.map_values(|i: PteInfo<T::P>| (i.level, i.vaddr@, i.pte))
                == in_range_valid(whole_space(), table_leaves::<T, R>(*reader, self.root.paddr, T::LEVEL, 0, 0)),
            r@.map_values(|i: PteInfo<T::P>| (i.level, i.vaddr@, i.pte)) == walk_valid_entries::<T, R>(
                whole_space(),
                walk_start::<T>(self.root.paddr, whole_space()).0,
                walk_start::<T>(self.root.paddr, whole_space()).1,
                *reader,
            ),
    {
        let config = WalkConfig {
            start_vaddr: VirtAddr::new(0),
            end_vaddr: VirtAddr::new(usize::MAX),
            visit_invalid: false,
        };
        proof {
            VirtAddr::lemma_from_usize(0);
            VirtAddr::lemma_from_usize(usize::MAX);
        }
        assert(config == whole_space());
        self.walk(config, reader)
    }
}

} // verus!
