//! Interrupt numbers, interrupt handlers, and the results of starting CPUs.
use crate::addr::IrqId;
use crate::hal::{Cpu, Platform};
use std::collections::BTreeMap;
use vstd::prelude::*;

verus! {

broadcast use vstd::std_specs::btree::group_btree_axioms;

/// An interrupt number as the hardware layer numbers them.
#[derive(Copy, Clone, Debug, PartialEq, Eq, PartialOrd, Ord, Structural)]
pub struct SoftIrqId(usize);

impl View for SoftIrqId {
    type V = usize;

    closed spec fn view(&self) -> usize {
        self.0
    }
}

impl SoftIrqId {
    /// The interrupt numbered `id`.
    pub fn new(id: usize) -> (r: Self)
        ensures
            r@ == id,
    {
        SoftIrqId(id)
    }

    /// The number of the interrupt.
    pub fn raw(&self) -> (id: usize)
        ensures
            id == self@,
    {
        self.0
    }
}

/// What the firmware answered to a request to start a CPU.
#[derive(Debug, Clone, Copy, PartialEq, Eq, Structural)]
pub enum CpuOnStatus {
    Success,
    NotSupported,
    AlreadyOn,
    InvalidParameters,
    Other,
}

impl CpuOnStatus {
    /// Whether the CPU runs after the request: it was started or already ran.
    pub fn is_started(self) -> (b: bool)
        ensures
            b <==> (self == CpuOnStatus::Success || self == CpuOnStatus::AlreadyOn),
    {
        match self {
            CpuOnStatus::Success | CpuOnStatus::AlreadyOn => true,
            _ => false,
        }
    }

    /// The status of a raw answer code.
    pub open spec fn from_code_spec(value: usize) -> CpuOnStatus {
        if value == 0 {
            CpuOnStatus::Success
        } else if value == 1 {
            CpuOnStatus::NotSupported
        } else if value == 2 {
            CpuOnStatus::AlreadyOn
        } else if value == 3 {
            CpuOnStatus::InvalidParameters
        } else {
            CpuOnStatus::Other
        }
    }

    /// The answer code of the status.
    pub fn code(self) -> (c: usize)
        ensures
            self != CpuOnStatus::Other ==> CpuOnStatus::from_code_spec(c) == self,
            self == CpuOnStatus::Other ==> c == 4,
    {
        match self {
            CpuOnStatus::Success => 0,
            CpuOnStatus::NotSupported => 1,
            CpuOnStatus::AlreadyOn => 2,
            CpuOnStatus::InvalidParameters => 3,
            CpuOnStatus::Other => 4,
        }
    }
}

impl From<usize> for CpuOnStatus {
    fn from(value: usize) -> (s: Self)
        ensures
            s == CpuOnStatus::from_code_spec(value),
    {
        match value {
            0 => CpuOnStatus::Success,
            1 => CpuOnStatus::NotSupported,
            2 => CpuOnStatus::AlreadyOn,
            3 => CpuOnStatus::InvalidParameters,
            _ => CpuOnStatus::Other,
        }
    }
}

impl vstd::std_specs::convert::FromSpecImpl<usize> for CpuOnStatus {
    open spec fn obeys_from_spec() -> bool {
        true
    }

    open spec fn from_spec(value: usize) -> Self {
        CpuOnStatus::from_code_spec(value)
    }
}

/// The status of the answer `code` to a request to start a CPU.
pub fn cpu_on_status(code: usize) -> (s: CpuOnStatus)
    ensures
        s == CpuOnStatus::from_code_spec(code),
{
    CpuOnStatus::from(code)
}

/// Saved interrupt state of the current CPU while interrupts are masked.
#[derive(Debug)]
pub struct NoIrqGuard {
    is_enabled: bool,
}

impl NoIrqGuard {
    /// Whether interrupts were on when the guard was taken.
    pub closed spec fn was_enabled(&self) -> bool {
        self.is_enabled
    }

    /// The guard for a CPU whose interrupts were `enabled`; the caller masks
    /// interrupts next.
    pub fn from_state(enabled: bool) -> (g: Self)
        ensures
            g.was_enabled() == enabled,
    {
        NoIrqGuard { is_enabled: enabled }
    }

    /// Saves whether interrupts are on for the running CPU and masks them.
    pub fn new<C: crate::hal::Cpu>() -> (g: Self) {
        let is_enabled = C::irq_local_is_enabled();
        C::irq_local_set_enable(false);
        Self::from_state(is_enabled)
    }

    /// Whether interrupts must be turned back on when the guard goes.
    pub fn restore_enabled(&self) -> (b: bool)
        ensures
            b == self.was_enabled(),
    {
        self.is_enabled
    }
}

/// Number of CPUs the platform has.
pub fn cpu_count<C: crate::hal::Cpu>() -> (n: usize) {
    C::cpu_count()
}

/// Id of the running CPU.
pub fn current_cpu_id<C: crate::hal::Cpu>() -> (id: usize) {
    C::current_cpu_id()
}

/// Asks the platform to start the CPU with index `cpu_idx`; its answer code
/// read as a status (see `cpu_on_status`).
pub fn cpu_on<C: crate::hal::Cpu>(cpu_idx: usize) -> (s: CpuOnStatus) {
    let code = C::cpu_on(cpu_idx);
    cpu_on_status(code)
}

/// The handlers registered for interrupts, by interrupt number.
pub struct IrqHandlers<H> {
    pub handlers: BTreeMap<usize, H>,
}

impl<H> IrqHandlers<H> {
    /// No handler registered.
    pub fn new() -> (t: Self)
        ensures
            t.handlers@ == Map::<usize, H>::empty(),
    {
        IrqHandlers { handlers: BTreeMap::new() }
    }
}

/// Enables interrupt `irq` on the platform and registers `handler` for it,
/// in place of any handler it had.
pub fn register_handler<P: Platform, H>(table: &mut IrqHandlers<H>, irq: IrqId, handler: H)
    ensures
        final(table).handlers@ == old(table).handlers@.insert(irq@, handler),
{
    P::irq_set_enabled(irq, true);
    table.handlers.insert(irq.raw(), handler);
}

/// The handler registered for `irq`, for the caller to run; `None` when
/// there is none.
pub fn handle_irq<H>(table: &IrqHandlers<H>, irq: IrqId) -> (r: Option<&H>)
    ensures
        match r {
            Some(h) => table.handlers@.contains_key(irq@) && *h == table.handlers@[irq@],
            None => !table.handlers@.contains_key(irq@),
        },
{
    table.handlers.get(&irq.raw())
}

/// Registers `handler` for the system timer's interrupt, which the platform
/// names.
pub fn init<C: Cpu, P: Platform, H>(table: &mut IrqHandlers<H>, handler: H)
    ensures
        exists|irq: usize| final(table).handlers@ == old(table).handlers@.insert(irq, handler),
{
    let irq = C::systimer_irq();
    register_handler::<P, H>(table, irq, handler);
}

/// The interrupt being taken, as the platform's interrupt controller
/// reports it; nothing is known of it here.
pub fn irq_handler_raw<P: Platform>() -> IrqId {
    P::irq_handler()
}

} // verus!
