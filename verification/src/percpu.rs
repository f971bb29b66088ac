//! Layout of the per-CPU areas and the mapping between hardware CPU ids and
//! logical CPU indices.
//!
//! Each CPU's area holds, in order: a copy of the linker's per-CPU data, the
//! `PerCpuMeta` record (aligned to `meta_align()`), and the CPU's stack
//! (page aligned). Areas follow each other, each rounded up to
//! `percpu_region_align()`.
use crate::align::align_up_spec;
use crate::memmap::AddressSpace;
use vstd::prelude::*;

verus! {

/// Boot information kept for each CPU at the start of its per-CPU area.
#[derive(Debug, Clone, Copy)]
pub struct PerCpuMeta {
    pub stack_top: usize,
    /// The hardware ID of the CPU, e.g. hart id in RISC-V or MPIDR in ARM
    pub cpu_id: usize,
    /// The logical index of the CPU, assigned by the bootloader or determined by the OS
    pub cpu_idx: usize,
    pub stack_top_virt: usize,
    pub entry_virt: usize,
    pub boot_table_paddr: usize,
}

/// Whether `a` is a power of two.
pub open spec fn is_pow2(a: usize) -> bool {
    exists|n: nat| n < usize::BITS && a == vstd::arithmetic::power2::pow2(n)
}

proof fn lemma_pow2_positive(a: usize)
    requires
        is_pow2(a),
    ensures
        a > 0,
{
    let n = choose|n: nat| n < usize::BITS && a == vstd::arithmetic::power2::pow2(n);
    vstd::arithmetic::power2::lemma_pow2_pos(n);
}

proof fn lemma_and_not(y: usize, m: usize)
    ensures
        y & !m == y - (y & m),
        y & m <= y,
{
    assert(y & !m == y - (y & m) && y & m <= y) by (bit_vector);
}

/// `value` rounded up to a multiple of the power of two `align`.
pub fn align_up_pow2(value: usize, align: usize) -> (r: usize)
    requires
        is_pow2(align),
        value + align - 1 <= usize::MAX,
    ensures
        r == align_up_spec(value as int, align as int),
{
    let ghost n = choose|n: nat| n < usize::BITS && align == vstd::arithmetic::power2::pow2(n);
    proof {
        lemma_pow2_positive(align);
    }
    let y = value + (align - 1);
    let m = align - 1;
    proof {
        vstd::bits::lemma_usize_low_bits_mask_is_mod(y, n);
        assert(m == vstd::bits::low_bits_mask(n) as usize);
        lemma_and_not(y, m);
        let a = align as int;
        let v = value as int;
        vstd::arithmetic::div_mod::lemma_fundamental_div_mod(v, a);
        vstd::arithmetic::div_mod::lemma_mod_bound(v, a);
        if v % a == 0 {
            vstd::arithmetic::div_mod::lemma_mod_add_multiples_vanish(a - 1, a);
            assert((v + a - 1) % a == a - 1) by {
                vstd::arithmetic::div_mod::lemma_add_mod_noop(v, a - 1, a);
                vstd::arithmetic::div_mod::lemma_small_mod((a - 1) as nat, a as nat);
            }
        } else {
            assert((v + a - 1) % a == v % a - 1) by {
                vstd::arithmetic::div_mod::lemma_add_mod_noop(v, a - 1, a);
                vstd::arithmetic::div_mod::lemma_small_mod((a - 1) as nat, a as nat);
                vstd::arithmetic::div_mod::lemma_mod_twice(v, a);
                assert((v % a + (a - 1)) % a == v % a - 1) by {
                    vstd::arithmetic::div_mod::lemma_mod_add_multiples_vanish(v % a - 1, a);
                    assert(v % a + (a - 1) == a + (v % a - 1));
                    vstd::arithmetic::div_mod::lemma_small_mod((v % a - 1) as nat, a as nat);
                }
            }
        }
    }
    y & !m
}

/// Alignment of the `PerCpuMeta` record inside an area: that of the record,
/// and at least a cache line (64 bytes).
pub open spec fn meta_align_spec() -> usize {
    if vstd::layout::align_of::<PerCpuMeta>() >= 64 {
        vstd::layout::align_of::<PerCpuMeta>() as usize
    } else {
        64
    }
}

/// Alignment of the `PerCpuMeta` record inside an area: that of the record,
/// and at least a cache line.
pub fn meta_align() -> (a: usize)
    ensures
        a == meta_align_spec(),
{
    let a = core::mem::align_of::<PerCpuMeta>();
    if a >= 64 {
        a
    } else {
        64
    }
}

/// The sizes the per-CPU layout is derived from.
#[derive(Debug, Clone, Copy)]
pub struct PerCpuLayout {
    /// Alignment of the `PerCpuMeta` record (`meta_align()`); a power of two.
    pub meta_align: usize,
    /// Size of the `PerCpuMeta` record.
    pub meta_size: usize,
    /// Size of the linker's per-CPU data section.
    pub link_size: usize,
    /// Page size; a power of two.
    pub page_size: usize,
    /// Size of each CPU's stack.
    pub stack_size: usize,
}

impl PerCpuLayout {
    /// The layout of this build's areas: the `PerCpuMeta` record aligned to
    /// `meta_align()` and of its own size, after `link_size` bytes of linker
    /// data, with pages of `page_size` bytes and stacks of `stack_size`.
    pub fn for_build(link_size: usize, page_size: usize, stack_size: usize) -> (l: Self)
        ensures
            l.meta_align == meta_align_spec(),
            l.meta_size == vstd::layout::size_of::<PerCpuMeta>(),
            l.link_size == link_size,
            l.page_size == page_size,
            l.stack_size == stack_size,
    {
        PerCpuLayout {
            meta_align: meta_align(),
            meta_size: core::mem::size_of::<PerCpuMeta>(),
            link_size,
            page_size,
            stack_size,
        }
    }

    /// Whether the layout is computable without overflow.
    pub open spec fn wf(self) -> bool {
        &&& is_pow2(self.page_size)
        &&& is_pow2(self.meta_align)
        &&& self.link_size + 2 * self.meta_align + self.meta_size + 2 * self.page_size + self.stack_size
            <= usize::MAX
    }

    /// Alignment of each area.
    pub open spec fn region_align_spec(self) -> usize {
        if self.page_size >= self.meta_align {
            self.page_size
        } else {
            self.meta_align
        }
    }

    /// Offset of the `PerCpuMeta` record within an area.
    pub open spec fn meta_offset_spec(self) -> int {
        align_up_spec(self.link_size as int, self.meta_align as int)
    }

    /// Offset of the stack within an area.
    pub open spec fn stack_offset_spec(self) -> int {
        align_up_spec(self.meta_offset_spec() + self.meta_size, self.page_size as int)
    }

    /// Size of an area.
    pub open spec fn data_size_spec(self) -> int {
        align_up_spec(self.stack_offset_spec() + self.stack_size, self.region_align_spec() as int)
    }

    /// Alignment of each area: a page, and at least the record's alignment.
    pub fn percpu_region_align(&self) -> (a: usize)
        ensures
            a == self.region_align_spec(),
    {
        if self.page_size >= self.meta_align {
            self.page_size
        } else {
            self.meta_align
        }
    }

    /// Offset of the `PerCpuMeta` record within an area.
    pub fn meta_offset(&self) -> (o: usize)
        requires
            self.wf(),
        ensures
            o == self.meta_offset_spec(),
            o <= self.link_size + self.meta_align,
    {
        proof {
            lemma_pow2_positive(self.meta_align);
            crate::align::lemma_align_bounds(self.link_size as int, self.meta_align as int);
        }
        align_up_pow2(self.link_size, self.meta_align)
    }

    /// Offset of the stack within an area.
    pub fn stack_offset(&self) -> (o: usize)
        requires
            self.wf(),
        ensures
            o == self.stack_offset_spec(),
            o <= self.link_size + self.meta_align + self.meta_size + self.page_size,
    {
        let m = self.meta_offset();
        proof {
            lemma_pow2_positive(self.page_size);
            crate::align::lemma_align_bounds(m + self.meta_size, self.page_size as int);
        }
        align_up_pow2(m + self.meta_size, self.page_size)
    }

    /// Size of an area.
    pub fn percpu_data_size(&self) -> (s: usize)
        requires
            self.wf(),
        ensures
            s == self.data_size_spec(),
            s <= self.link_size + self.meta_align + self.meta_size + self.page_size + self.stack_size
                + self.page_size + self.meta_align,
    {
        let so = self.stack_offset();
        let ra = self.percpu_region_align();
        proof {
            lemma_pow2_positive(ra);
            crate::align::lemma_align_bounds(so + self.stack_size, ra as int);
        }
        align_up_pow2(so + self.stack_size, ra)
    }
}

/// The parts of a per-CPU area follow each other without overlap and stay
/// inside the area: the linker data, then the `PerCpuMeta` record at an
/// offset aligned to `meta_align`, then the stack at a page-aligned offset,
/// ending no later than the area.
pub proof fn lemma_percpu_area_layout(layout: PerCpuLayout)
    requires
        layout.wf(),
    ensures
        layout.link_size <= layout.meta_offset_spec(),
        layout.meta_offset_spec() % (layout.meta_align as int) == 0,
        layout.meta_offset_spec() + layout.meta_size <= layout.stack_offset_spec(),
        layout.stack_offset_spec() % (layout.page_size as int) == 0,
        layout.stack_offset_spec() + layout.stack_size <= layout.data_size_spec(),
        layout.data_size_spec() % (layout.region_align_spec() as int) == 0,
{
    lemma_pow2_positive(layout.meta_align);
    lemma_pow2_positive(layout.page_size);
    crate::align::lemma_align_bounds(layout.link_size as int, layout.meta_align as int);
    crate::align::lemma_align_bounds(
        layout.meta_offset_spec() + layout.meta_size,
        layout.page_size as int,
    );
    crate::align::lemma_align_bounds(
        layout.stack_offset_spec() + layout.stack_size,
        layout.region_align_spec() as int,
    );
}

/// Start of the area of the CPU with index `idx`, when it lies in `data`.
pub open spec fn area_start_spec(data: core::ops::Range<usize>, layout: PerCpuLayout, idx: int) -> int {
    data.start + idx * layout.data_size_spec()
}

/// Physical address of the `PerCpuMeta` record of CPU `idx`; `None` when the
/// CPU's area does not start inside `data`.
pub fn cpu_meta_addr(data: core::ops::Range<usize>, layout: PerCpuLayout, idx: usize) -> (r: Option<usize>)
    requires
        layout.wf(),
        area_start_spec(data, layout, idx as int) + layout.meta_offset_spec() <= usize::MAX,
    ensures
        area_start_spec(data, layout, idx as int) >= data.end ==> r is None,
        area_start_spec(data, layout, idx as int) < data.end ==> r == Some(
            (area_start_spec(data, layout, idx as int) + layout.meta_offset_spec()) as usize,
        ),
{
    let size = layout.percpu_data_size();
    let mo = layout.meta_offset();
    assert(0 <= idx * size <= area_start_spec(data, layout, idx as int) - data.start) by (nonlinear_arith)
        requires
            area_start_spec(data, layout, idx as int) == data.start + idx * size,
            size >= 0,
            idx >= 0,
    ;
    let base = data.start + idx * size;
    if base >= data.end {
        return None;
    }
    Some(base + mo)
}

/// Physical addresses of the `PerCpuMeta` records of every CPU whose area
/// starts inside `data`, in order of CPU index: the records that
/// `cpu_meta_addr` finds for indices 0, 1, ... until it finds none.
pub fn cpu_meta_list(data: core::ops::Range<usize>, layout: PerCpuLayout) -> (r: Vec<usize>)
    requires
        layout.wf(),
        layout.data_size_spec() > 0,
        data.end + layout.data_size_spec() + layout.meta_offset_spec() <= usize::MAX,
    ensures
        forall|i: int| 0 <= i < r@.len() ==> #[trigger] area_start_spec(data, layout, i) < data.end,
        forall|i: int|
            0 <= i < r@.len() ==> #[trigger] r@[i] == area_start_spec(data, layout, i)
                + layout.meta_offset_spec(),
        area_start_spec(data, layout, r@.len() as int) >= data.end,
{
    let size = layout.percpu_data_size();
    let mo = layout.meta_offset();
    let mut v: Vec<usize> = Vec::new();
    let mut base = data.start;
    while base < data.end
        invariant
            size == layout.data_size_spec(),
            size > 0,
            mo == layout.meta_offset_spec(),
            data.end + size + mo <= usize::MAX,
            base == area_start_spec(data, layout, v@.len() as int),
            v@.len() == 0 || base < data.end + size,
            forall|i: int| 0 <= i < v@.len() ==> #[trigger] area_start_spec(data, layout, i) < data.end,
            forall|i: int| 0 <= i < v@.len() ==> #[trigger] v@[i] == area_start_spec(data, layout, i) + mo,
        decreases data.end + size - base,
    {
        let ghost n = v@.len() as int;
        let ghost old_v = v@;
        v.push(base + mo);
        assert forall|i: int| 0 <= i < v@.len() implies #[trigger] v@[i] == area_start_spec(data, layout, i)
            + mo by {
            if i < n {
                assert(v@[i] == old_v[i]);
            }
        }
        assert(area_start_spec(data, layout, n + 1) == base + size) by (nonlinear_arith)
            requires
                base == data.start + n * layout.data_size_spec(),
                size == layout.data_size_spec(),
                area_start_spec(data, layout, n + 1) == data.start + (n + 1) * layout.data_size_spec(),
        ;
        base = base + size;
    }
    v
}

/// The address at which the kernel reaches the area of CPU `idx` in
/// `space`; `None` when the area does not start inside `data`.
pub fn percpu_data_ptr(
    data: core::ops::Range<usize>,
    layout: PerCpuLayout,
    idx: usize,
    space: &AddressSpace,
) -> (r: Option<usize>)
    requires
        layout.wf(),
        area_start_spec(data, layout, idx as int) <= usize::MAX,
        space.mmu_enabled ==> area_start_spec(data, layout, idx as int) + space.linear_offset <= usize::MAX,
    ensures
        area_start_spec(data, layout, idx as int) >= data.end ==> r is None,
        area_start_spec(data, layout, idx as int) < data.end ==> r == Some(
            space.phys_to_virt_spec(area_start_spec(data, layout, idx as int)) as usize,
        ),
{
    let size = layout.percpu_data_size();
    assert(0 <= idx * size <= area_start_spec(data, layout, idx as int) - data.start) by (nonlinear_arith)
        requires
            area_start_spec(data, layout, idx as int) == data.start + idx * size,
            size >= 0,
            idx >= 0,
    ;
    let base = data.start + idx * size;
    if base >= data.end {
        return None;
    }
    Some(space.phys_to_virt(base))
}

/// One CPU's place in the plan of the per-CPU areas: where its area starts,
/// and its `PerCpuMeta` record.
pub open spec fn planned_cpu(
    layout: PerCpuLayout,
    ids: Seq<usize>,
    data_start: usize,
    percpu_va_offset: usize,
    entry_virt: usize,
    i: int,
    p: (usize, PerCpuMeta),
) -> bool {
    let area = data_start + i * layout.data_size_spec();
    let top = area + layout.stack_offset_spec() + layout.stack_size;
    &&& p.0 == area
    &&& p.1.cpu_idx == i
    &&& p.1.cpu_id == ids[i]
    &&& p.1.stack_top == top
    &&& p.1.stack_top_virt == top + percpu_va_offset
    &&& p.1.entry_virt == entry_virt
    &&& p.1.boot_table_paddr == 0
}

/// The per-CPU areas of the CPUs whose hardware ids are `ids`, laid one
/// after another from `data_start`: their total size, and for CPU `i` the
/// start of its area and its record, whose stack top the kernel reaches
/// `percpu_va_offset` bytes higher.
pub fn percpu_plan(
    layout: PerCpuLayout,
    ids: &[usize],
    data_start: usize,
    percpu_va_offset: usize,
    entry_virt: usize,
) -> (r: (usize, Vec<(usize, PerCpuMeta)>))
    requires
        layout.wf(),
        data_start + ids@.len() * layout.data_size_spec() + percpu_va_offset <= usize::MAX,
    ensures
        r.0 == ids@.len() * layout.data_size_spec(),
        r.1@.len() == ids@.len(),
        forall|i: int|
            0 <= i < ids@.len() ==> planned_cpu(
                layout,
                ids@,
                data_start,
                percpu_va_offset,
                entry_virt,
                i,
                #[trigger] r.1@[i],
            ),
{
    let size = layout.percpu_data_size();
    let so = layout.stack_offset();
    proof {
        lemma_percpu_area_layout(layout);
    }
    let n = ids.len();
    let mut v: Vec<(usize, PerCpuMeta)> = Vec::new();
    let mut area = data_start;
    let mut i: usize = 0;
    while i < n
        invariant
            layout.wf(),
            n == ids@.len(),
            size == layout.data_size_spec(),
            so == layout.stack_offset_spec(),
            so + layout.stack_size <= size,
            data_start + n * size + percpu_va_offset <= usize::MAX,
            0 <= i <= n,
            v@.len() == i,
            area == data_start + i * size,
            forall|j: int|
                0 <= j < i ==> planned_cpu(layout, ids@, data_start, percpu_va_offset, entry_virt, j, #[trigger] v@[j]),
        decreases n - i,
    {
        assert(area + size <= data_start + n * size) by (nonlinear_arith)
            requires
                area == data_start + i * size,
                i < n,
                size >= 0,
        ;
        let top = area + so + layout.stack_size;
        let meta = PerCpuMeta {
            stack_top: top,
            cpu_id: ids[i],
            cpu_idx: i,
            stack_top_virt: top + percpu_va_offset,
            entry_virt,
            boot_table_paddr: 0,
        };
        let ghost old_v = v@;
        v.push((area, meta));
        assert forall|j: int| 0 <= j < i + 1 implies planned_cpu(
            layout,
            ids@,
            data_start,
            percpu_va_offset,
            entry_virt,
            j,
            #[trigger] v@[j],
        ) by {
            if j < i {
                assert(v@[j] == old_v[j]);
            }
        }
        assert(area + size == data_start + (i + 1) * size) by (nonlinear_arith)
            requires
                area == data_start + i * size,
        ;
        area = area + size;
        i = i + 1;
    }
    assert(n * size <= data_start + n * size);
    (n * size, v)
}

/// The index of the first CPU of `ids` whose hardware id is `hart_id`.
pub fn cpu_id_to_idx(ids: &[usize], hart_id: usize) -> (r: Option<usize>)
    ensures
        r is None <==> !ids@.contains(hart_id),
        r matches Some(i) ==> i < ids.len() && ids@[i as int] == hart_id && forall|j: int|
            0 <= j < i ==> ids@[j] != hart_id,
{
    let mut i: usize = 0;
    while i < ids.len()
        invariant
            0 <= i <= ids.len(),
            forall|j: int| 0 <= j < i ==> ids@[j] != hart_id,
        decreases ids.len() - i,
    {
        if ids[i] == hart_id {
            return Some(i);
        }
        i = i + 1;
    }
    None
}

/// The index of the CPU whose hardware id is `hart_id`, which must be listed.
pub fn cpu_idx(ids: &[usize], hart_id: usize) -> (i: usize)
    requires
        ids@.contains(hart_id),
    ensures
        i < ids.len(),
        ids@[i as int] == hart_id,
        forall|j: int| 0 <= j < i ==> ids@[j] != hart_id,
{
    match cpu_id_to_idx(ids, hart_id) {
        Some(i) => i,
        None => {
            assert(false);
            0
        },
    }
}

/// The hardware id of the CPU with index `idx`, if there is one.
pub fn cpu_idx_to_id(ids: &[usize], idx: usize) -> (r: Option<usize>)
    ensures
        idx < ids.len() ==> r == Some(ids@[idx as int]),
        idx >= ids.len() ==> r is None,
{
    if idx < ids.len() {
        Some(ids[idx])
    } else {
        None
    }
}

/// The number of CPUs listed.
pub fn cpu_count(ids: &[usize]) -> (n: usize)
    ensures
        n == ids.len(),
{
    ids.len()
}

/// The `PerCpuMeta` record of CPU `idx` with hardware id `cpu_id`, whose area
/// starts at `area_start`. The stack top is the end of the CPU's stack.
pub fn percpu_meta(
    layout: PerCpuLayout,
    area_start: usize,
    idx: usize,
    cpu_id: usize,
    stack_top_virt: usize,
    entry_virt: usize,
) -> (m: PerCpuMeta)
    requires
        layout.wf(),
        area_start + layout.stack_offset_spec() + layout.stack_size <= usize::MAX,
    ensures
        m.stack_top == area_start + layout.stack_offset_spec() + layout.stack_size,
        m.cpu_id == cpu_id,
        m.cpu_idx == idx,
        m.stack_top_virt == stack_top_virt,
        m.entry_virt == entry_virt,
        m.boot_table_paddr == 0,
{
    let stack_top = area_start + layout.stack_offset() + layout.stack_size;
    PerCpuMeta {
        stack_top,
        cpu_id,
        cpu_idx: idx,
        stack_top_virt,
        entry_virt,
        boot_table_paddr: 0,
    }
}

} // verus!
