//! Boot-time description of physical memory regions.
use crate::addr::PhysAddr;
use crate::align::{align_down, align_down_spec, align_up, align_up_ok, align_up_spec};
use vstd::prelude::*;

verus! {

/// A single access right.
#[derive(Clone, Copy, PartialEq, Eq, Debug, Structural)]
pub enum AccessSetting {
    Read,
    Write,
    Execute,
    Lower,
}

impl AccessSetting {
    /// The flag bit that stands for this right.
    pub open spec fn bit_spec(self) -> u8 {
        match self {
            AccessSetting::Read => 1,
            AccessSetting::Write => 2,
            AccessSetting::Execute => 4,
            AccessSetting::Lower => 8,
        }
    }

    /// The flag bit that stands for this right.
    pub fn bit(self) -> (b: u8)
        ensures
            b == self.bit_spec(),
    {
        match self {
            AccessSetting::Read => 1,
            AccessSetting::Write => 2,
            AccessSetting::Execute => 4,
            AccessSetting::Lower => 8,
        }
    }
}

/// A set of access rights, as flag bits.
#[derive(Clone, Copy, PartialEq, Eq, Debug, Structural)]
pub struct AccessRights {
    pub bits: u8,
}

impl AccessRights {
    /// No rights.
    pub fn empty() -> (a: Self)
        ensures
            a.bits == 0,
    {
        AccessRights { bits: 0 }
    }

    /// Whether `right` is among the rights.
    pub fn contains(&self, right: AccessSetting) -> (b: bool)
        ensures
            b <==> self.bits & right.bit_spec() == right.bit_spec(),
    {
        let bit = right.bit();
        self.bits & bit == bit
    }
}

impl core::ops::BitOr for AccessSetting {
    type Output = AccessRights;

    fn bitor(self, rhs: Self) -> (r: AccessRights)
        ensures
            r.bits == self.bit_spec() | rhs.bit_spec(),
    {
        AccessRights { bits: self.bit() | rhs.bit() }
    }
}

impl vstd::std_specs::ops::BitOrSpecImpl for AccessSetting {
    open spec fn obeys_bitor_spec() -> bool {
        true
    }

    open spec fn bitor_req(self, rhs: Self) -> bool {
        true
    }

    open spec fn bitor_spec(self, rhs: Self) -> AccessRights {
        AccessRights { bits: self.bit_spec() | rhs.bit_spec() }
    }
}

impl core::ops::BitOr<AccessSetting> for AccessRights {
    type Output = AccessRights;

    fn bitor(self, rhs: AccessSetting) -> (r: AccessRights)
        ensures
            r.bits == self.bits | rhs.bit_spec(),
    {
        AccessRights { bits: self.bits | rhs.bit() }
    }
}

impl vstd::std_specs::ops::BitOrSpecImpl<AccessSetting> for AccessRights {
    open spec fn obeys_bitor_spec() -> bool {
        true
    }

    open spec fn bitor_req(self, rhs: AccessSetting) -> bool {
        true
    }

    open spec fn bitor_spec(self, rhs: AccessSetting) -> AccessRights {
        AccessRights { bits: self.bits | rhs.bit_spec() }
    }
}

/// Cache policy of a mapping.
#[derive(Clone, Copy, PartialEq, Eq, Debug, Structural)]
pub enum CacheSetting {
    Normal,
    Device,
}

/// What a boot-time memory region holds.
#[derive(Clone, Copy, PartialEq, Eq, Debug, Structural)]
pub enum BootMemoryKind {
    Ram,
    Reserved,
    KImage,
}

/// A half-open range `[start, end)` of physical addresses.
#[derive(Clone, Copy, PartialEq, Eq, Debug, Structural)]
pub struct PhysCRange {
    pub start: PhysAddr,
    pub end: PhysAddr,
}

impl View for PhysCRange {
    type V = (usize, usize);

    open spec fn view(&self) -> (usize, usize) {
        (self.start@, self.end@)
    }
}

impl PhysCRange {
    /// The range `[start, end)`.
    pub fn new(start: usize, end: usize) -> (r: Self)
        ensures
            r@ == (start, end),
    {
        PhysCRange { start: PhysAddr::new(start), end: PhysAddr::new(end) }
    }
}

/// A physical memory region reported by the boot environment.
#[derive(Clone, Copy, Debug)]
pub struct BootRegion {
    pub range: PhysCRange,
    pub name: &'static str,
    pub access: AccessRights,
    pub cache: CacheSetting,
    pub kind: BootMemoryKind,
}

/// One gibibyte.
pub const GB: usize = 0x4000_0000;

/// Two mebibytes.
pub const MB2: usize = 0x20_0000;

/// A mapping of the boot page table: `size` bytes from `vaddr` onto
/// `paddr`, as normal memory or as device memory.
#[derive(Clone, Copy, PartialEq, Eq, Debug, Structural)]
pub struct BootMapping {
    pub vaddr: usize,
    pub paddr: usize,
    pub size: usize,
    pub cache: CacheSetting,
}

/// The mappings the boot page table is built from before the MMU is turned
/// on, in order: the gibibyte around the kernel mapped onto itself; the
/// kernel code, from `code_start` up to `code_end` rounded up to 2 MiB,
/// mapped at its link address `load_address`; and, when there is a debug
/// UART (`debug_base` not zero), its page mapped onto itself as device
/// memory.
pub fn boot_mappings(
    kernel_start: usize,
    code_start: usize,
    code_end: usize,
    load_address: usize,
    debug_base: usize,
    page_size: usize,
) -> (r: Vec<BootMapping>)
    requires
        page_size > 0,
        align_up_ok(code_end as int, MB2 as int),
        code_start <= align_up_spec(code_end as int, MB2 as int),
    ensures
        r@.len() == if debug_base != 0 { 3int } else { 2int },
        r@[0] == (BootMapping {
            vaddr: align_down_spec(kernel_start as int, GB as int) as usize,
            paddr: align_down_spec(kernel_start as int, GB as int) as usize,
            size: GB,
            cache: CacheSetting::Normal,
        }),
        r@[1] == (BootMapping {
            vaddr: load_address,
            paddr: code_start,
            size: (align_up_spec(code_end as int, MB2 as int) - code_start) as usize,
            cache: CacheSetting::Normal,
        }),
        debug_base != 0 ==> r@[2] == (BootMapping {
            vaddr: align_down_spec(debug_base as int, page_size as int) as usize,
            paddr: align_down_spec(debug_base as int, page_size as int) as usize,
            size: page_size,
            cache: CacheSetting::Device,
        }),
{
    let mut r: Vec<BootMapping> = Vec::new();
    let start = align_down(kernel_start, GB);
    r.push(BootMapping { vaddr: start, paddr: start, size: GB, cache: CacheSetting::Normal });
    let end = align_up(code_end, MB2);
    r.push(
        BootMapping { vaddr: load_address, paddr: code_start, size: end - code_start, cache: CacheSetting::Normal },
    );
    if debug_base != 0 {
        let uart = align_down(debug_base, page_size);
        r.push(BootMapping { vaddr: uart, paddr: uart, size: page_size, cache: CacheSetting::Device });
    }
    r
}

} // verus!
