//! Turning the firmware's memory map into boot memory map regions.
use crate::memmap::{descriptors32, push_if_room, MemoryRegistry};
use crate::memory::{MemoryDescriptor, MemoryType};
use vstd::prelude::*;

verus! {

/// The type of a range in the firmware's memory map.
#[derive(Clone, Copy, PartialEq, Eq, Debug, Structural)]
pub enum EfiMemoryType {
    Reserved,
    LoaderCode,
    LoaderData,
    BootServicesCode,
    BootServicesData,
    RuntimeServicesCode,
    RuntimeServicesData,
    Conventional,
    Unusable,
    AcpiReclaim,
    AcpiNonVolatile,
    Mmio,
    MmioPortSpace,
    PalCode,
    PersistentMemory,
    Unaccepted,
    /// A type code outside the ones above.
    Other(u32),
}

/// One range of the firmware's memory map.
#[derive(Clone, Copy, Debug)]
pub struct EfiMemoryDescriptor {
    pub ty: EfiMemoryType,
    pub phys_start: u64,
    pub page_count: u64,
}

/// The name under which a reserved firmware range is recorded.
pub open spec fn type_name_spec(t: EfiMemoryType) -> &'static str {
    match t {
        EfiMemoryType::Reserved => "RESERVED",
        EfiMemoryType::LoaderCode => "LOADER_CODE",
        EfiMemoryType::LoaderData => "LOADER_DATA",
        EfiMemoryType::BootServicesCode => "BOOT_SERVICES_CODE",
        EfiMemoryType::BootServicesData => "BOOT_SERVICES_DATA",
        EfiMemoryType::RuntimeServicesCode => "UEFI Runtime",
        EfiMemoryType::RuntimeServicesData => "UEFI Runtime",
        EfiMemoryType::Conventional => "CONVENTIONAL",
        EfiMemoryType::Unusable => "UNUSABLE",
        EfiMemoryType::PalCode => "PAL_CODE",
        EfiMemoryType::Mmio => "MMIO",
        EfiMemoryType::MmioPortSpace => "MMIO_PORT_SPACE",
        EfiMemoryType::AcpiNonVolatile => "ACPI_NON_VOLATILE",
        EfiMemoryType::AcpiReclaim => "ACPI_RECLAIM",
        EfiMemoryType::Unaccepted => "UNACCEPTED",
        _ => "UNKNOWN",
    }
}

/// The name under which a reserved firmware range is recorded.
pub fn memty_str(t: EfiMemoryType) -> (s: &'static str)
    ensures
        s == type_name_spec(t),
{
    match t {
        EfiMemoryType::Reserved => "RESERVED",
        EfiMemoryType::LoaderCode => "LOADER_CODE",
        EfiMemoryType::LoaderData => "LOADER_DATA",
        EfiMemoryType::BootServicesCode => "BOOT_SERVICES_CODE",
        EfiMemoryType::BootServicesData => "BOOT_SERVICES_DATA",
        EfiMemoryType::RuntimeServicesCode => "UEFI Runtime",
        EfiMemoryType::RuntimeServicesData => "UEFI Runtime",
        EfiMemoryType::Conventional => "CONVENTIONAL",
        EfiMemoryType::Unusable => "UNUSABLE",
        EfiMemoryType::PalCode => "PAL_CODE",
        EfiMemoryType::Mmio => "MMIO",
        EfiMemoryType::MmioPortSpace => "MMIO_PORT_SPACE",
        EfiMemoryType::AcpiNonVolatile => "ACPI_NON_VOLATILE",
        EfiMemoryType::AcpiReclaim => "ACPI_RECLAIM",
        EfiMemoryType::Unaccepted => "UNACCEPTED",
        _ => "UNKNOWN",
    }
}

/// Whether the firmware range is memory the kernel may use.
pub open spec fn is_usable_spec(t: EfiMemoryType) -> bool {
    match t {
        EfiMemoryType::Conventional | EfiMemoryType::BootServicesCode
        | EfiMemoryType::BootServicesData | EfiMemoryType::LoaderCode
        | EfiMemoryType::LoaderData => true,
        _ => false,
    }
}

/// Whether the firmware range is device memory, which the map leaves out.
pub open spec fn is_mmio_spec(t: EfiMemoryType) -> bool {
    match t {
        EfiMemoryType::Mmio | EfiMemoryType::MmioPortSpace => true,
        _ => false,
    }
}

/// Whether the range fits the address space once converted.
pub open spec fn fits(m: EfiMemoryDescriptor, page_size: usize) -> bool {
    &&& m.phys_start <= usize::MAX
    &&& m.page_count <= usize::MAX
    &&& m.page_count * page_size <= usize::MAX
}

/// The region recorded for a firmware range (see `efi_region`).
pub open spec fn efi_region_spec(m: EfiMemoryDescriptor, page_size: usize) -> Option<MemoryDescriptor> {
    if is_mmio_spec(m.ty) {
        None
    } else if is_usable_spec(m.ty) {
        Some(
            MemoryDescriptor {
                name: "RAM",
                physical_start: m.phys_start as usize,
                size_in_bytes: (m.page_count * page_size) as usize,
                memory_type: MemoryType::Free,
            },
        )
    } else {
        Some(
            MemoryDescriptor {
                name: type_name_spec(m.ty),
                physical_start: m.phys_start as usize,
                size_in_bytes: (m.page_count * page_size) as usize,
                memory_type: MemoryType::Reserved,
            },
        )
    }
}

/// The RAM and reserved lists after each range of `mems` is recorded in
/// turn: free regions join the RAM list and others the reserved list while
/// there is room.
pub open spec fn register_all(
    ram: Seq<MemoryDescriptor>,
    reserved: Seq<MemoryDescriptor>,
    mems: Seq<EfiMemoryDescriptor>,
    page_size: usize,
) -> (Seq<MemoryDescriptor>, Seq<MemoryDescriptor>)
    decreases mems.len(),
{
    if mems.len() == 0 {
        (ram, reserved)
    } else {
        let (r0, s0) = register_all(ram, reserved, mems.drop_last(), page_size);
        match efi_region_spec(mems.last(), page_size) {
            None => (r0, s0),
            Some(d) => if d.memory_type == MemoryType::Free {
                (push_if_room(r0, d), s0)
            } else {
                (r0, push_if_room(s0, d))
            },
        }
    }
}

/// The region recorded for a firmware range: usable memory becomes a free
/// region named "RAM", device memory is left out, and anything else becomes
/// a reserved region named after its type.
pub fn efi_region(m: EfiMemoryDescriptor, page_size: usize) -> (r: Option<MemoryDescriptor>)
    requires
        fits(m, page_size),
    ensures
        r == efi_region_spec(m, page_size),
        is_mmio_spec(m.ty) <==> r is None,
        r matches Some(d) ==> {
            &&& d.physical_start == m.phys_start
            &&& d.size_in_bytes == m.page_count * page_size
            &&& is_usable_spec(m.ty) ==> d.memory_type == MemoryType::Free && d.name == "RAM"
            &&& !is_usable_spec(m.ty) ==> d.memory_type == MemoryType::Reserved && d.name
                == type_name_spec(m.ty)
        },
        m.ty == EfiMemoryType::Conventional || m.ty == EfiMemoryType::BootServicesCode || m.ty
            == EfiMemoryType::BootServicesData || m.ty == EfiMemoryType::LoaderCode || m.ty
            == EfiMemoryType::LoaderData ==> r == Some(
            MemoryDescriptor {
                name: "RAM",
                physical_start: m.phys_start as usize,
                size_in_bytes: (m.page_count * page_size) as usize,
                memory_type: MemoryType::Free,
            },
        ),
        m.ty == EfiMemoryType::Mmio || m.ty == EfiMemoryType::MmioPortSpace ==> r is None,
{
    proof {
        reveal_strlit("RAM");
    }
    let size = (m.page_count as usize) * page_size;
    match m.ty {
        EfiMemoryType::Conventional | EfiMemoryType::BootServicesCode
        | EfiMemoryType::BootServicesData | EfiMemoryType::LoaderCode
        | EfiMemoryType::LoaderData => Some(
            MemoryDescriptor {
                name: "RAM",
                physical_start: m.phys_start as usize,
                size_in_bytes: size,
                memory_type: MemoryType::Free,
            },
        ),
        EfiMemoryType::Mmio | EfiMemoryType::MmioPortSpace => None,
        t => Some(
            MemoryDescriptor {
                name: memty_str(t),
                physical_start: m.phys_start as usize,
                size_in_bytes: size,
                memory_type: MemoryType::Reserved,
            },
        ),
    }
}

/// Records every firmware range in `registry` as `efi_region` converts it,
/// in order.
pub fn setup_memory_map(registry: &mut MemoryRegistry, mems: &[EfiMemoryDescriptor], page_size: usize)
    requires
        forall|i: int| 0 <= i < mems.len() ==> fits(#[trigger] mems@[i], page_size),
    ensures
        (descriptors32(final(registry).ram), descriptors32(final(registry).reserved)) == register_all(
            descriptors32(old(registry).ram),
            descriptors32(old(registry).reserved),
            mems@,
            page_size,
        ),
{
    let mut i: usize = 0;
    while i < mems.len()
        invariant
            0 <= i <= mems.len(),
            forall|j: int| 0 <= j < mems.len() ==> fits(#[trigger] mems@[j], page_size),
            (descriptors32(registry.ram), descriptors32(registry.reserved)) == register_all(
                descriptors32(old(registry).ram),
                descriptors32(old(registry).reserved),
                mems@.subrange(0, i as int),
                page_size,
            ),
        decreases mems.len() - i,
    {
        assert(fits(mems@[i as int], page_size));
        assert(mems@.subrange(0, i + 1).drop_last() =~= mems@.subrange(0, i as int));
        match efi_region(mems[i], page_size) {
            Some(d) => {
                let _ = registry.add_memory_descriptor(d);
            },
            None => {},
        }
        i = i + 1;
    }
    assert(mems@.subrange(0, mems.len() as int) =~= mems@);
}

/// Conventional memory, and what the boot services and the loader used,
/// is handed to the kernel: each such range becomes a free region named
/// "RAM" covering exactly its pages, whatever else the map holds. Device
/// ranges are left out, and every other range is kept as a reserved region.
pub proof fn lemma_usable_ranges_become_ram(m: EfiMemoryDescriptor, page_size: usize)
    ensures
        m.ty == EfiMemoryType::Conventional || m.ty == EfiMemoryType::BootServicesCode || m.ty
            == EfiMemoryType::BootServicesData || m.ty == EfiMemoryType::LoaderCode || m.ty
            == EfiMemoryType::LoaderData ==> efi_region_spec(m, page_size) == Some(
            MemoryDescriptor {
                name: "RAM",
                physical_start: m.phys_start as usize,
                size_in_bytes: (m.page_count * page_size) as usize,
                memory_type: MemoryType::Free,
            },
        ),
        m.ty == EfiMemoryType::Mmio || m.ty == EfiMemoryType::MmioPortSpace ==> efi_region_spec(m, page_size)
            is None,
        !(m.ty == EfiMemoryType::Conventional || m.ty == EfiMemoryType::BootServicesCode || m.ty
            == EfiMemoryType::BootServicesData || m.ty == EfiMemoryType::LoaderCode || m.ty
            == EfiMemoryType::LoaderData || m.ty == EfiMemoryType::Mmio || m.ty == EfiMemoryType::MmioPortSpace)
            ==> (efi_region_spec(m, page_size) matches Some(d) && d.memory_type == MemoryType::Reserved),
{
}

} // verus!
