//! What the boot code asks of an architecture, and the RISC-V stand-in that
//! answers it while RISC-V support is unfinished: it never maps anything,
//! reports every interrupt as disabled and cannot start other CPUs.
use crate::addr::{IrqId, PhysAddr, VirtAddr};
use crate::memory::PageTableInfo;
use crate::page_table::{PageTableEntry, TableGeneric};
use vstd::prelude::*;

verus! {

/// Why another CPU could not be started.
#[derive(Debug, Clone, Copy, PartialEq, Eq, Structural)]
pub enum CpuOnError {
    NotSupported,
}

/// The services an architecture gives the boot code.
pub trait ArchTrait {
    /// The geometry of the architecture's page tables.
    type P: TableGeneric;

    /// Hardware id of the running CPU.
    fn cpu_current_hartid() -> usize;

    fn post_allocator();

    fn per_cpu_trap_init(is_primary: bool);

    /// Address of the trap vector.
    fn trap_addr() -> usize;

    fn virt_to_phys(vaddr: usize) -> usize;

    /// The virtual addresses that belong to the kernel.
    fn kernel_space() -> core::ops::Range<usize>;

    fn kernel_page_table() -> PageTableInfo;

    fn set_kernel_page_table(val: PageTableInfo);

    /// Starts the CPU `hartid` at `entry` with `arg`.
    fn cpu_on(hartid: usize, entry: usize, arg: usize) -> Result<(), CpuOnError>;

    fn systimer_enable();

    fn systimer_irq_enable();

    fn systimer_irq_disable();

    fn systimer_irq_is_enabled() -> bool;

    fn systimer_set_interval(ticks: usize);

    fn systimer_ack();

    fn systimer_freq() -> usize;

    fn systimer_tick() -> usize;

    /// Whether interrupts are enabled on the running CPU.
    fn irq_all_is_enabled() -> bool;

    fn irq_all_set_enable(enable: bool);

    fn irq_is_enabled(irq: IrqId) -> bool;

    fn irq_set_enable(irq: IrqId, enable: bool);
}

/// Where the kernel image was loaded: its physical range and the virtual
/// address it was linked at.
#[derive(Clone, Copy, Debug)]
pub struct PrimaryCpuInitInfo {
    pub kernel_start: PhysAddr,
    pub kernel_end: PhysAddr,
    pub kernel_start_link: VirtAddr,
}

/// What the platform layer asks of the kernel.
pub trait KernelOp {
    /// Maps `size` bytes of device memory at `paddr`; the address they are
    /// reached at.
    fn ioremap(&self, paddr: usize, size: usize) -> Result<usize, crate::paging::PagingError>;
}

/// A RISC-V page table entry of the stand-in architecture: it holds nothing and
/// is never valid.
#[derive(Clone, Copy, Debug)]
pub struct Entry;

impl PageTableEntry for Entry {
    open spec fn is_valid(&self) -> bool {
        false
    }

    open spec fn paddr_spec(&self, is_dir: bool) -> usize {
        0
    }

    open spec fn is_huge_spec(&self, is_dir: bool) -> bool {
        false
    }

    fn new_valid() -> (e: Self) {
        Entry
    }

    fn valid(&self) -> (b: bool) {
        false
    }

    fn set_valid(&mut self, valid: bool) {
    }

    fn paddr(&self, is_dir: bool) -> (p: PhysAddr)
        ensures
            p@ == 0,
    {
        PhysAddr::new(0)
    }

    fn set_paddr(&mut self, paddr: PhysAddr, is_dir: bool) {
    }

    fn is_huge(&self, is_dir: bool) -> (b: bool)
        ensures
            !b,
    {
        false
    }

    fn set_is_huge(&mut self, b: bool, is_dir: bool) {
    }

    fn is_writable(&self) -> (b: bool)
        ensures
            !b,
    {
        false
    }

    fn set_writable(&mut self, b: bool) {
    }

    fn is_executable(&self) -> (b: bool)
        ensures
            !b,
    {
        false
    }

    fn set_executable(&mut self, b: bool) {
    }

    fn is_lower_access(&self) -> (b: bool)
        ensures
            !b,
    {
        false
    }

    fn set_lower_access(&mut self, b: bool) {
    }

    fn is_global(&self, is_dir: bool) -> (b: bool)
        ensures
            !b,
    {
        false
    }

    fn set_global(&mut self, b: bool, is_dir: bool) {
    }

    fn is_accessed(&self) -> (b: bool)
        ensures
            !b,
    {
        false
    }

    fn set_accessed(&mut self, b: bool) {
    }

    fn is_dirty(&self) -> (b: bool)
        ensures
            !b,
    {
        false
    }

    fn set_dirty(&mut self, b: bool) {
    }
}

/// The RISC-V page table geometry: 4 KiB pages, four levels of 9 index
/// bits, blocks only at level 1.
#[derive(Clone, Copy, Debug)]
pub struct Generic;

impl TableGeneric for Generic {
    type P = Entry;

    const PAGE_SIZE: usize = 0x1000;

    const LEVEL: usize = 4;

    const INDEX_BITS: usize = 9;

    const MAX_BLOCK_LEVEL: usize = 1;

    fn flush(vaddr: Option<VirtAddr>) {
    }
}

/// The RISC-V stand-in architecture.
pub struct Arch;

impl ArchTrait for Arch {
    type P = Generic;

    fn cpu_current_hartid() -> (id: usize)
        ensures
            id == 0,
    {
        0
    }

    fn post_allocator() {
    }

    fn per_cpu_trap_init(is_primary: bool) {
    }

    fn trap_addr() -> (a: usize)
        ensures
            a == 0,
    {
        0
    }

    fn virt_to_phys(vaddr: usize) -> (p: usize)
        ensures
            p == vaddr,
    {
        vaddr
    }

    fn kernel_space() -> (r: core::ops::Range<usize>)
        ensures
            r.start == 0,
            r.end == usize::MAX,
    {
        0..usize::MAX
    }

    fn kernel_page_table() -> (t: PageTableInfo)
        ensures
            t.asid == 0,
            t.addr == 0,
    {
        PageTableInfo { asid: 0, addr: 0 }
    }

    fn set_kernel_page_table(val: PageTableInfo) {
    }

    fn cpu_on(hartid: usize, entry: usize, arg: usize) -> (r: Result<(), CpuOnError>)
        ensures
            r == Err::<(), CpuOnError>(CpuOnError::NotSupported),
    {
        Err(CpuOnError::NotSupported)
    }

    fn systimer_enable() {
    }

    fn systimer_irq_enable() {
    }

    fn systimer_irq_disable() {
    }

    fn systimer_irq_is_enabled() -> (b: bool)
        ensures
            !b,
    {
        false
    }

    fn systimer_set_interval(ticks: usize) {
    }

    fn systimer_ack() {
    }

    fn systimer_freq() -> (f: usize)
        ensures
            f == 0,
    {
        0
    }

    fn systimer_tick() -> (t: usize)
        ensures
            t == 0,
    {
        0
    }

    fn irq_all_is_enabled() -> (b: bool)
        ensures
            !b,
    {
        false
    }

    fn irq_all_set_enable(enable: bool) {
    }

    fn irq_is_enabled(irq: IrqId) -> (b: bool)
        ensures
            !b,
    {
        false
    }

    fn irq_set_enable(irq: IrqId, enable: bool) {
    }
}

/// Hardware id of the running CPU.
pub fn cpu_hart_id<A: ArchTrait>() -> (id: usize) {
    A::cpu_current_hartid()
}

/// Whether interrupts are enabled on the running CPU.
pub fn irq_local_is_enabled<A: ArchTrait>() -> (b: bool) {
    A::irq_all_is_enabled()
}

/// Enables or disables interrupts on the running CPU.
pub fn irq_local_set_enable<A: ArchTrait>(enabled: bool) {
    A::irq_all_set_enable(enabled)
}

/// Whether interrupt `irq` is enabled.
pub fn irq_is_enabled<A: ArchTrait>(irq: usize) -> (b: bool) {
    A::irq_is_enabled(IrqId::new(irq))
}

/// Enables or disables interrupt `irq`.
pub fn irq_set_enable<A: ArchTrait>(irq: usize, enable: bool) {
    A::irq_set_enable(IrqId::new(irq), enable)
}

} // verus!
