//! Physical memory descriptors.
use crate::align::{align_down, align_down_spec, align_up, align_up_ok, align_up_spec};
use vstd::prelude::*;

verus! {

/// What a region of physical memory is used for.
#[derive(Debug, Clone, Copy, PartialEq, Eq, Structural)]
pub enum MemoryType {
    Free,
    Reserved,
    Mmio,
}

/// A named region of physical memory.
#[derive(Debug, Clone, Copy, PartialEq, Eq)]
pub struct MemoryDescriptor {
    pub name: &'static str,
    pub physical_start: usize,
    pub size_in_bytes: usize,
    pub memory_type: MemoryType,
}

/// The address space identifier and root table address of a page table.
#[derive(Debug, Clone, Copy)]
pub struct PageTableInfo {
    pub asid: usize,
    pub addr: usize,
}

/// The descriptor named `name` of type `memory_type` that covers
/// `[start, end)` widened outwards to multiples of `align`.
pub open spec fn widened_spec(
    name: &'static str,
    start: int,
    end: int,
    memory_type: MemoryType,
    align: int,
) -> MemoryDescriptor {
    MemoryDescriptor {
        name,
        physical_start: align_down_spec(start, align) as usize,
        size_in_bytes: (align_up_spec(end, align) - align_down_spec(start, align)) as usize,
        memory_type,
    }
}

/// Widening a region given by its start and size gives the descriptor that
/// widening the range from its start to its end gives.
pub proof fn lemma_new_aligned_is_range_aligned(
    name: &'static str,
    physical_start: usize,
    size_in_bytes: usize,
    memory_type: MemoryType,
    align: usize,
)
    requires
        physical_start + size_in_bytes <= usize::MAX,
    ensures
        widened_spec(name, physical_start as int, physical_start + size_in_bytes, memory_type, align as int)
            == widened_spec(
            name,
            (physical_start..(physical_start + size_in_bytes) as usize).start as int,
            (physical_start..(physical_start + size_in_bytes) as usize).end as int,
            memory_type,
            align as int,
        ),
{
}

impl MemoryDescriptor {
    /// One past the last byte of the region.
    pub open spec fn end_spec(self) -> int {
        self.physical_start + self.size_in_bytes
    }

    /// A descriptor covering exactly `range`.
    pub fn new_with_range(
        name: &'static str,
        range: core::ops::Range<usize>,
        memory_type: MemoryType,
    ) -> (d: Self)
        requires
            range.start <= range.end,
        ensures
            d.name == name,
            d.physical_start == range.start,
            d.size_in_bytes == range.end - range.start,
            d.memory_type == memory_type,
    {
        MemoryDescriptor {
            name,
            physical_start: range.start,
            size_in_bytes: range.end - range.start,
            memory_type,
        }
    }

    /// A descriptor covering `range` widened outwards to multiples of `align`.
    pub fn new_with_range_aligned(
        name: &'static str,
        range: core::ops::Range<usize>,
        memory_type: MemoryType,
        align: usize,
    ) -> (d: Self)
        requires
            align > 0,
            align_up_ok(range.end as int, align as int),
            align_down_spec(range.start as int, align as int) <= align_up_spec(range.end as int, align as int),
        ensures
            d.name == name,
            d.physical_start == align_down_spec(range.start as int, align as int),
            d.end_spec() == align_up_spec(range.end as int, align as int),
            d.memory_type == memory_type,
            d == widened_spec(name, range.start as int, range.end as int, memory_type, align as int),
    {
        proof {
            crate::align::lemma_align_bounds(range.start as int, align as int);
            crate::align::lemma_align_bounds(range.end as int, align as int);
        }
        let start = align_down(range.start, align);
        let end = align_up(range.end, align);
        MemoryDescriptor { name, physical_start: start, size_in_bytes: end - start, memory_type }
    }

    /// A descriptor covering `size_in_bytes` bytes from `physical_start`, widened
    /// outwards to multiples of `align`.
    pub fn new_aligned(
        name: &'static str,
        physical_start: usize,
        size_in_bytes: usize,
        memory_type: MemoryType,
        align: usize,
    ) -> (d: Self)
        requires
            align > 0,
            physical_start + size_in_bytes <= usize::MAX,
            align_up_ok(physical_start + size_in_bytes, align as int),
        ensures
            d.name == name,
            d.physical_start == align_down_spec(physical_start as int, align as int),
            d.end_spec() == align_up_spec(physical_start + size_in_bytes, align as int),
            d.memory_type == memory_type,
            d == widened_spec(name, physical_start as int, physical_start + size_in_bytes, memory_type, align as int),
    {
        proof {
            crate::align::lemma_align_bounds(physical_start as int, align as int);
            crate::align::lemma_align_bounds(physical_start + size_in_bytes, align as int);
        }
        let start = align_down(physical_start, align);
        let end = align_up(physical_start + size_in_bytes, align);
        MemoryDescriptor { name, physical_start: start, size_in_bytes: end - start, memory_type }
    }

    /// The half-open address range of the region.
    pub fn range(&self) -> (r: core::ops::Range<usize>)
        requires
            self.end_spec() <= usize::MAX,
        ensures
            r.start == self.physical_start,
            r.end == self.end_spec(),
    {
        self.physical_start..(self.physical_start + self.size_in_bytes)
    }

    /// The region's memory type.
    pub fn kind(&self) -> (k: MemoryType)
        ensures
            k == self.memory_type,
    {
        self.memory_type
    }

    /// Whether another region may be laid over this one: only free memory may.
    pub fn overwritable(&self) -> (b: bool)
        ensures
            b <==> self.memory_type == MemoryType::Free,
    {
        match self.memory_type {
            MemoryType::Free => true,
            _ => false,
        }
    }

    /// A descriptor with this one's name and type over another range.
    pub fn clone_with_range(&self, range: core::ops::Range<usize>) -> (d: Self)
        requires
            range.start <= range.end,
        ensures
            d.name == self.name,
            d.physical_start == range.start,
            d.size_in_bytes == range.end - range.start,
            d.memory_type == self.memory_type,
    {
        MemoryDescriptor {
            name: self.name,
            physical_start: range.start,
            size_in_bytes: range.end - range.start,
            memory_type: self.memory_type,
        }
    }
}

} // verus!
