//! The interface between the kernel and the platform it runs on.
use crate::addr::{IrqId, PhysAddr, VirtAddr};
use vstd::prelude::*;

verus! {

/// Why a page table operation failed.
#[derive(Debug, Clone, Copy, PartialEq, Eq, Structural)]
pub enum PageError {
    InvalidAddress,
    OutOfMemory,
    Exist,
}

impl PageError {
    /// The message that describes the error.
    pub open spec fn message_spec(self) -> &'static str {
        match self {
            PageError::InvalidAddress => "Invalid Address",
            PageError::OutOfMemory => "Out of Memory",
            PageError::Exist => "Page Already Exists",
        }
    }

    /// The message that describes the error.
    pub fn message(&self) -> (m: &'static str)
        ensures
            m == self.message_spec(),
    {
        match self {
            PageError::InvalidAddress => "Invalid Address",
            PageError::OutOfMemory => "Out of Memory",
            PageError::Exist => "Page Already Exists",
        }
    }
}

/// Readable.
pub const ACCESS_READ: usize = 1;

/// Writable.
pub const ACCESS_WRITE: usize = 4;

/// Executable.
pub const ACCESS_EXECUTE: usize = 8;

/// Accessible from user mode.
pub const ACCESS_LOWER: usize = 16;

/// Access rights of a mapping, as flag bits.
#[derive(Clone, Copy, Debug, PartialEq, Eq, Structural)]
pub struct AccessFlags {
    pub bits: usize,
}

impl AccessFlags {
    /// The rights whose bits are `bits`, kept as they are.
    pub fn from_bits_retain(bits: usize) -> (f: Self)
        ensures
            f.bits == bits,
    {
        AccessFlags { bits }
    }

    /// Whether every bit of `other` is set.
    pub fn contains(&self, other: AccessFlags) -> (b: bool)
        ensures
            b == (self.bits & other.bits == other.bits),
    {
        self.bits & other.bits == other.bits
    }

    /// The rights of both.
    pub fn union(self, other: AccessFlags) -> (f: Self)
        ensures
            f.bits == self.bits | other.bits,
    {
        AccessFlags { bits: self.bits | other.bits }
    }
}

/// Normal cacheable memory.
pub const MEM_NORMAL: usize = 0;

/// Device memory.
pub const MEM_DEVICE: usize = 1;

/// Uncached memory.
pub const MEM_UNCACHED: usize = 2;

/// Memory attributes of a mapping, as flag bits.
#[derive(Clone, Copy, Debug, PartialEq, Eq, Structural)]
pub struct MemAttributes {
    pub bits: usize,
}

impl MemAttributes {
    /// The attributes whose bits are `bits`, kept as they are.
    pub fn from_bits_retain(bits: usize) -> (f: Self)
        ensures
            f.bits == bits,
    {
        MemAttributes { bits }
    }

    /// Whether every bit of `other` is set.
    pub fn contains(&self, other: MemAttributes) -> (b: bool)
        ensures
            b == (self.bits & other.bits == other.bits),
    {
        self.bits & other.bits == other.bits
    }
}

/// How a range is to be mapped.
#[derive(Clone, Copy, Debug)]
pub struct MapSettings {
    pub access: AccessFlags,
    pub mem_attributes: MemAttributes,
}

/// The platform's interrupt controller and power control.
pub trait Platform {
    fn post_allocator();

    fn irq_is_enabled(irq: IrqId) -> bool;

    fn irq_set_enabled(irq: IrqId, enabled: bool);

    /// The interrupt being taken, as the interrupt controller reports it.
    fn irq_handler() -> IrqId;
}

/// The current CPU's interrupt mask and system timer.
pub trait Cpu {
    fn current_cpu_id() -> usize;

    /// Number of CPUs.
    fn cpu_count() -> usize;

    /// Starts the CPU with index `cpu_idx`; the firmware's answer code.
    fn cpu_on(cpu_idx: usize) -> usize;

    fn irq_local_is_enabled() -> bool;

    fn irq_local_set_enable(enabled: bool);

    fn systimer_irq() -> IrqId;

    fn systimer_enable();

    fn systimer_disable();

    fn systimer_set_next_event(intval: core::time::Duration);

    fn systimer_ack();

    fn systimer_since_boot() -> core::time::Duration;
}

/// The early console.
pub trait Console {
    fn early_write(bytes: &[u8]) -> usize;

    fn early_read() -> Option<u8>;
}

/// A page table of the platform's MMU.
pub trait PageTable {
    fn addr(&self) -> PhysAddr;

    fn map(
        &mut self,
        phys_start: PhysAddr,
        virt_start: VirtAddr,
        size: usize,
        settings: MapSettings,
    ) -> Result<(), PageError>;

    fn unmap(&mut self, virt_start: VirtAddr, size: usize) -> Result<(), PageError>;
}

} // verus!
