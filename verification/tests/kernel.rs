use sparreal::addr::{IrqId, PhysAddr};
use sparreal::arch::{data_abort_reason, lie_contains, lie_update, timer_init_value, to_phys, PageFaultReason};
use sparreal::boot_arch::{
    cpu_hart_id, irq_is_enabled, irq_local_is_enabled, irq_local_set_enable, irq_set_enable, Arch,
    ArchTrait, CpuOnError,
};
use sparreal::dma::{confirm_write, prepare_read, Direction, DmaError, SyncPlan};
use sparreal::drivers::{
    actual_block_id, check_buffer_len, emmc_clock_source, BufferError, EmmcClockSource, BLOCK_SIZE,
    SDCARD_OFFSET,
};
use sparreal::efi::{efi_region, memty_str, setup_memory_map, EfiMemoryDescriptor, EfiMemoryType};
use sparreal::hal::Cpu;
use sparreal::irq::{
    cpu_on, cpu_on_status, current_cpu_id, handle_irq, init, register_handler, CpuOnStatus,
    IrqHandlers, NoIrqGuard, SoftIrqId,
};
use sparreal::listen_table::{IpEndpoint, IpListenEndpoint, ListenError, ListenTable, LISTEN_QUEUE_SIZE};
use sparreal::neighbor::IpAddress;
use sparreal::memmap::{
    ioremap, merge_contiguous_with_same_name, rsv_memories, same_name, setup_allocator,
    sort_by_start, AddressSpace, MemoryRegistry,
};
use sparreal::memory::{MemoryDescriptor, MemoryType};
use sparreal::mmu::{boot_mappings, BootMapping, CacheSetting, GB};
use sparreal::mutex::{
    acquire_transition, encode_state, epoch, handoff_stats, handoff_target, handoff_wait_step,
    release_transition, HandoffWait,
    reset_handoff_stats, tag, task_id, HandoffCounters, TAG_HANDOFF_PENDING, TAG_OWNED, TAG_UNLOCKED,
};
use sparreal::percpu::{
    align_up_pow2, cpu_count, cpu_id_to_idx, cpu_idx, cpu_idx_to_id, cpu_meta_addr, cpu_meta_list,
    meta_align, percpu_data_ptr, percpu_plan, PerCpuLayout, PerCpuMeta,
};
use std::sync::atomic::{AtomicBool, Ordering};
use std::time::Duration;

#[test]
fn mutex_words_round_trip() {
    let s = encode_state(TAG_OWNED, 7, 42);
    assert_eq!(tag(s), TAG_OWNED);
    assert_eq!(epoch(s), 7);
    assert_eq!(task_id(s), 42);
}

#[test]
fn mutex_acquire_release_and_handoff() {
    let unlocked = encode_state(TAG_UNLOCKED, 3, 0);
    let (owned, handed) = acquire_transition(unlocked, 5).unwrap();
    assert!(!handed);
    assert_eq!(owned, encode_state(TAG_OWNED, 3, 5));
    assert_eq!(acquire_transition(owned, 6), None);
    let (released, next) = release_transition(owned, 5);
    assert_eq!(next, 4);
    assert_eq!(released, encode_state(TAG_UNLOCKED, 4, 0));
    let pending = handoff_target(9, next).unwrap();
    assert_eq!(pending, encode_state(TAG_HANDOFF_PENDING, 4, 9));
    assert_eq!(acquire_transition(pending, 8), None);
    assert_eq!(acquire_transition(pending, 9), Some((encode_state(TAG_OWNED, 4, 9), true)));
    assert_eq!(handoff_target(0, next), None);
    // The epoch wraps at 16 bits.
    let last = encode_state(TAG_OWNED, 0xffff, 1);
    assert_eq!(release_transition(last, 1).1, 0);
}

#[test]
fn handoff_counters_total_and_reset() {
    let mut c = HandoffCounters::new();
    c.record_accept();
    c.record_fallback();
    c.record_direct_unlock();
    c.record_direct_unlock();
    let s = handoff_stats(&c);
    assert_eq!(s.total_unlocks(), 4);
    reset_handoff_stats(&mut c);
    assert_eq!(handoff_stats(&c).total_unlocks(), 0);
}

#[test]
fn listen_conflicts_follow_dual_stack_rules() {
    let mut t = ListenTable::new();
    assert!(t.can_listen(80));
    assert_eq!(t.listen(any_port(80), false, false), Ok(()));
    assert!(!t.can_listen(80));
    assert_eq!(t.listen(any_port(80), false, false), Err(ListenError::AddrInUse));
    // A dual-stack IPv6 listener conflicts with the IPv4 one...
    assert_eq!(t.listen(any_port(80), true, false), Err(ListenError::AddrInUse));
    // ...a v6only one does not.
    assert_eq!(t.listen(any_port(80), true, true), Ok(()));
    t.unlisten(80, false);
    t.unlisten(80, true);
    assert!(t.can_listen(80));
    assert_eq!(t.listen(any_port(443), true, false), Ok(()));
    assert_eq!(t.listen(any_port(443), false, false), Err(ListenError::AddrInUse));
}

#[test]
fn listen_queue_accepts_first_connected() {
    let mut t = ListenTable::new();
    assert_eq!(t.listen(any_port(8080), false, false), Ok(()));
    assert_eq!(t.accept(8080, true, &[], &[]), Err(ListenError::InvalidInput));
    assert_eq!(t.accept(8080, false, &[], &[]), Err(ListenError::WouldBlock));
    assert!(t.incoming_tcp_packet(v4_dst(8080), 11));
    assert!(t.incoming_tcp_packet(v4_dst(8080), 12));
    assert!(t.incoming_tcp_packet(v4_dst(8080), 13));
    assert_eq!(t.can_accept(8080, false, &[false, false, false]), Ok(false));
    assert_eq!(t.can_accept(8080, false, &[false, true, false]), Ok(true));
    // The second socket is taken; the first moves into its place.
    assert_eq!(t.accept(8080, false, &[false, true, false], &[false; 3]), Ok((12, false)));
    assert_eq!(t.syn_queue(8080, false).unwrap(), &vec![11, 13]);
    assert_eq!(t.accept(8080, false, &[false, true], &[false, true]), Err(ListenError::ConnectionReset));
    assert_eq!(t.syn_queue(8080, false).unwrap(), &vec![11]);
}

#[test]
fn efi_ranges_become_regions() {
    let ram = EfiMemoryDescriptor { ty: EfiMemoryType::Conventional, phys_start: 0x4000_0000, page_count: 16 };
    let d = efi_region(ram, 0x1000).unwrap();
    assert_eq!(d.name, "RAM");
    assert_eq!(d.size_in_bytes, 0x10000);
    assert_eq!(d.memory_type, MemoryType::Free);
    let rt = EfiMemoryDescriptor { ty: EfiMemoryType::RuntimeServicesData, phys_start: 0x1000, page_count: 1 };
    let d = efi_region(rt, 0x1000).unwrap();
    assert_eq!(d.name, "UEFI Runtime");
    assert_eq!(d.memory_type, MemoryType::Reserved);
    let io = EfiMemoryDescriptor { ty: EfiMemoryType::Mmio, phys_start: 0x900_0000, page_count: 1 };
    assert!(efi_region(io, 0x1000).is_none());
    assert_eq!(memty_str(EfiMemoryType::Other(0x7000_0000)), "UNKNOWN");

    let mut reg = MemoryRegistry::new();
    setup_memory_map(&mut reg, &[ram, rt, io], 0x1000);
    assert_eq!(reg.ram.len(), 1);
    assert_eq!(reg.reserved.len(), 1);
    assert_eq!(reg.reserved[0].name, "UEFI Runtime");
}

#[test]
fn registry_drops_regions_past_capacity() {
    let mut reg = MemoryRegistry::new();
    for i in 0..33 {
        let added = reg.add_memory_descriptor(MemoryDescriptor {
            name: "r",
            physical_start: i * 0x1000,
            size_in_bytes: 0x1000,
            memory_type: MemoryType::Reserved,
        });
        assert_eq!(added, i < 32);
    }
    assert_eq!(reg.reserved.len(), 32);
    assert!(reg.ram.is_empty());
}

#[test]
fn loongarch_helpers() {
    assert_eq!(to_phys(0x9000_0000_1234_5678), 0x1234_5678);
    assert_eq!(timer_init_value(1), 4);
    assert_eq!(timer_init_value(5), 8);
    assert_eq!(timer_init_value(12), 12);
    let lie = lie_update(0, 11, true);
    assert_eq!(lie, 1 << 11);
    assert!(lie_contains(lie, 11));
    assert_eq!(lie_update(lie, 11, false), 0);
}

#[test]
fn data_abort_reasons() {
    assert_eq!(data_abort_reason(0x40), PageFaultReason::Write);
    assert_eq!(data_abort_reason(0x140), PageFaultReason::Read);
    assert_eq!(data_abort_reason(0), PageFaultReason::Read);
}

#[test]
fn dma_sync_plans() {
    assert_eq!(prepare_read(0x1000, None, 0x10, 0x20, Direction::ToDevice), None);
    assert_eq!(
        prepare_read(0x1000, Some(0x8000), 0x10, 0x20, Direction::FromDevice),
        Some(SyncPlan { cache_addr: 0x8010, size: 0x20, copy_from: Some(0x8010), copy_to: Some(0x1010) })
    );
    assert_eq!(
        confirm_write(0x1000, Some(0x1000), 0, 0x20, Direction::Bidirectional),
        Some(SyncPlan { cache_addr: 0x1000, size: 0x20, copy_from: None, copy_to: None })
    );
    assert_eq!(
        confirm_write(0x1000, Some(0x8000), 4, 8, Direction::ToDevice),
        Some(SyncPlan { cache_addr: 0x8004, size: 8, copy_from: Some(0x1004), copy_to: Some(0x8004) })
    );
    assert_eq!(confirm_write(0x1000, None, 0, 8, Direction::FromDevice), None);
    assert_eq!(DmaError::AllocationFailed.message(), "DMA allocation failed");
}

#[test]
fn sdcard_blocks_and_buffers() {
    assert_eq!(actual_block_id(3), 3 + SDCARD_OFFSET / BLOCK_SIZE);
    assert_eq!(check_buffer_len(512), Ok(()));
    assert_eq!(check_buffer_len(511), Err(BufferError::TooSmall(511)));
    assert_eq!(emmc_clock_source(52_000_000), Some(EmmcClockSource::CplDiv50M));
    assert_eq!(emmc_clock_source(400_000), Some(EmmcClockSource::Soc0375K));
    assert_eq!(emmc_clock_source((1u64 << 32) + 24_000_000), Some(EmmcClockSource::XinSoc0Mux));
    assert_eq!(emmc_clock_source(33_000_000), None);
}

#[test]
fn memory_descriptors() {
    let d = MemoryDescriptor::new_with_range("ram", 0x1000..0x5000, MemoryType::Free);
    assert_eq!(d.physical_start, 0x1000);
    assert_eq!(d.size_in_bytes, 0x4000);
    assert_eq!(d.range(), 0x1000..0x5000);
    let a = MemoryDescriptor::new_with_range_aligned("dev", 0x1234..0x2345, MemoryType::Mmio, 0x1000);
    assert_eq!(a.range(), 0x1000..0x3000);
    let c = d.clone_with_range(0x2000..0x3000);
    assert_eq!(c.name, "ram");
    assert_eq!(c.range(), 0x2000..0x3000);
}

#[test]
fn heap_gets_whole_pages_of_free_regions() {
    let regions = [
        MemoryDescriptor { name: "a", physical_start: 0x1800, size_in_bytes: 0x3000, memory_type: MemoryType::Free },
        MemoryDescriptor { name: "b", physical_start: 0x10000, size_in_bytes: 0x800, memory_type: MemoryType::Free },
        MemoryDescriptor { name: "c", physical_start: 0x20000, size_in_bytes: 0x4000, memory_type: MemoryType::Reserved },
        MemoryDescriptor { name: "d", physical_start: 0x30000, size_in_bytes: 0x2000, memory_type: MemoryType::Free },
    ];
    assert_eq!(setup_allocator(&regions, 0x1000), vec![(0x2000, 0x2000), (0x30000, 0x2000)]);
}

#[test]
fn ioremap_covers_whole_pages() {
    assert_eq!(ioremap(0x900_0123, 0x10, 0x1000), (0x900_0000, 0x1000));
    assert_eq!(ioremap(0x900_0ff8, 0x10, 0x1000), (0x900_0000, 0x2000));
}

#[test]
fn address_space_translation() {
    let mut s = AddressSpace { mmu_enabled: false, linear_offset: 0xffff_0000_0000_0000 };
    assert_eq!(s.phys_to_virt(0x1000), 0x1000);
    s.set_mmu_enabled();
    assert!(s.is_mmu_enabled());
    assert_eq!(s.phys_to_virt(0x1000), 0xffff_0000_0000_1000);
    assert_eq!(s.virt_to_phys(0xffff_0000_0000_1000), 0x1000);
}

#[test]
fn boot_page_table_plan() {
    let m = boot_mappings(0x4008_0000, 0x4008_0000, 0x4012_3456, 0xffff_0000_0000_0000, 0x900_0123, 0x1000);
    assert_eq!(
        m,
        vec![
            BootMapping { vaddr: 0x4000_0000, paddr: 0x4000_0000, size: GB, cache: CacheSetting::Normal },
            BootMapping {
                vaddr: 0xffff_0000_0000_0000,
                paddr: 0x4008_0000,
                size: 0x4020_0000 - 0x4008_0000,
                cache: CacheSetting::Normal,
            },
            BootMapping { vaddr: 0x900_0000, paddr: 0x900_0000, size: 0x1000, cache: CacheSetting::Device },
        ]
    );
    assert_eq!(boot_mappings(0, 0, 0x1000, 0x1000, 0, 0x1000).len(), 2);
}

fn layout() -> PerCpuLayout {
    PerCpuLayout { meta_align: 64, meta_size: 48, link_size: 0x100, page_size: 0x1000, stack_size: 0x4000 }
}

#[test]
fn percpu_layout_and_areas() {
    let l = layout();
    assert_eq!(l.meta_offset(), 0x100);
    assert_eq!(l.stack_offset(), 0x1000);
    assert_eq!(l.percpu_data_size(), 0x5000);
    assert_eq!(align_up_pow2(0x1001, 0x1000), 0x2000);
    let data = 0x8000_0000..0x8000_f000;
    assert_eq!(cpu_meta_addr(data.clone(), l, 2), Some(0x8000_a100));
    assert_eq!(cpu_meta_addr(data.clone(), l, 3), None);
    let early = AddressSpace { mmu_enabled: false, linear_offset: 0xffff_0000_0000_0000 };
    let late = AddressSpace { mmu_enabled: true, linear_offset: 0xffff_0000_0000_0000 };
    assert_eq!(percpu_data_ptr(data.clone(), l, 1, &early), Some(0x8000_5000));
    assert_eq!(percpu_data_ptr(data.clone(), l, 1, &late), Some(0xffff_0000_8000_5000));
    assert_eq!(percpu_data_ptr(data.clone(), l, 3, &late), None);
    assert_eq!(cpu_meta_list(data, l), vec![0x8000_0100, 0x8000_5100, 0x8000_a100]);
}

#[test]
fn cpu_ids_and_indices() {
    let ids = [0x100, 0x200, 0x300];
    assert_eq!(cpu_count(&ids), 3);
    assert_eq!(cpu_id_to_idx(&ids, 0x200), Some(1));
    assert_eq!(cpu_id_to_idx(&ids, 0x400), None);
    assert_eq!(cpu_idx(&ids, 0x300), 2);
    assert_eq!(cpu_idx_to_id(&ids, 0), Some(0x100));
    assert_eq!(cpu_idx_to_id(&ids, 3), None);
}

#[test]
fn cpu_on_status_codes() {
    assert_eq!(cpu_on_status(0), CpuOnStatus::Success);
    assert_eq!(cpu_on_status(2), CpuOnStatus::AlreadyOn);
    assert_eq!(cpu_on_status(77), CpuOnStatus::Other);
    assert!(CpuOnStatus::AlreadyOn.is_started());
    assert!(!CpuOnStatus::InvalidParameters.is_started());
    assert_eq!(SoftIrqId::new(30).raw(), 30);
}

static IRQ_ON: AtomicBool = AtomicBool::new(true);

struct TestCpu;

impl Cpu for TestCpu {
    fn current_cpu_id() -> usize {
        3
    }
    fn cpu_count() -> usize {
        4
    }
    fn cpu_on(cpu_idx: usize) -> usize {
        if cpu_idx < 4 { 0 } else { 3 }
    }
    fn irq_local_is_enabled() -> bool {
        IRQ_ON.load(Ordering::SeqCst)
    }
    fn irq_local_set_enable(enabled: bool) {
        IRQ_ON.store(enabled, Ordering::SeqCst)
    }
    fn systimer_irq() -> IrqId {
        IrqId::new(30)
    }
    fn systimer_enable() {}
    fn systimer_disable() {}
    fn systimer_set_next_event(_intval: Duration) {}
    fn systimer_ack() {}
    fn systimer_since_boot() -> Duration {
        Duration::from_secs(0)
    }
}

#[test]
fn cpu_services_go_through_the_platform() {
    assert_eq!(current_cpu_id::<TestCpu>(), 3);
    assert_eq!(sparreal::irq::cpu_count::<TestCpu>(), 4);
    assert_eq!(cpu_on::<TestCpu>(1), CpuOnStatus::Success);
    assert_eq!(cpu_on::<TestCpu>(9), CpuOnStatus::InvalidParameters);
}

#[test]
fn no_irq_guard_masks_and_remembers() {
    IRQ_ON.store(true, Ordering::SeqCst);
    let g = NoIrqGuard::new::<TestCpu>();
    assert!(g.restore_enabled());
    assert!(!TestCpu::irq_local_is_enabled());
    let g2 = NoIrqGuard::new::<TestCpu>();
    assert!(!g2.restore_enabled());
}

#[test]
fn riscv_placeholder_arch() {
    assert_eq!(cpu_hart_id::<Arch>(), 0);
    assert!(!irq_local_is_enabled::<Arch>());
    irq_local_set_enable::<Arch>(true);
    assert!(!irq_is_enabled::<Arch>(5));
    irq_set_enable::<Arch>(5, true);
    assert_eq!(Arch::cpu_on(1, 0, 0), Err(CpuOnError::NotSupported));
    assert_eq!(Arch::kernel_space(), 0..usize::MAX);
    assert_eq!(Arch::virt_to_phys(0x1234), 0x1234);
    let _ = PhysAddr::new(0);
}

static LAST_ENABLED: std::sync::Mutex<Vec<usize>> = std::sync::Mutex::new(Vec::new());

struct TestPlatform;

impl sparreal::hal::Platform for TestPlatform {
    fn post_allocator() {}
    fn irq_is_enabled(irq: IrqId) -> bool {
        LAST_ENABLED.lock().unwrap().contains(&irq.raw())
    }
    fn irq_set_enabled(irq: IrqId, enabled: bool) {
        if enabled {
            LAST_ENABLED.lock().unwrap().push(irq.raw());
        }
    }
    fn irq_handler() -> IrqId {
        IrqId::new(7)
    }
}

#[test]
fn irq_handler_raw_asks_the_platform() {
    assert_eq!(sparreal::irq::irq_handler_raw::<TestPlatform>().raw(), 7);
}

#[test]
fn irq_handlers_are_registered_and_found() {
    let mut table: IrqHandlers<&'static str> = IrqHandlers::new();
    assert!(handle_irq(&table, IrqId::new(33)).is_none());
    register_handler::<TestPlatform, _>(&mut table, IrqId::new(33), "uart");
    assert!(LAST_ENABLED.lock().unwrap().contains(&33));
    assert_eq!(handle_irq(&table, IrqId::new(33)), Some(&"uart"));
    register_handler::<TestPlatform, _>(&mut table, IrqId::new(33), "uart2");
    assert_eq!(handle_irq(&table, IrqId::new(33)), Some(&"uart2"));
    init::<TestCpu, TestPlatform, _>(&mut table, "timer");
    assert_eq!(handle_irq(&table, IrqId::new(30)), Some(&"timer"));
}

fn desc(name: &'static str, start: usize, size: usize) -> MemoryDescriptor {
    MemoryDescriptor { name, physical_start: start, size_in_bytes: size, memory_type: MemoryType::Reserved }
}

#[test]
fn reserved_regions_are_sorted_and_merged() {
    let mut list: heapless::Vec<MemoryDescriptor, 32> = heapless::Vec::new();
    list.push(desc("b", 0x3000, 0x1000)).unwrap();
    list.push(desc("a", 0x1000, 0x1000)).unwrap();
    list.push(desc("a", 0x2000, 0x1000)).unwrap();
    list.push(desc("b", 0x4000, 0x1000)).unwrap();
    list.push(desc("a", 0x6000, 0x1000)).unwrap();
    let merged = merge_contiguous_with_same_name(list);
    let got: Vec<(&str, usize, usize)> =
        merged.iter().map(|d| (d.name, d.physical_start, d.size_in_bytes)).collect();
    assert_eq!(got, vec![("a", 0x1000, 0x2000), ("b", 0x3000, 0x2000), ("a", 0x6000, 0x1000)]);
}

#[test]
fn sorting_is_stable_by_start() {
    let s = sort_by_start(&[desc("x", 5, 1), desc("y", 1, 1), desc("z", 5, 1)]);
    let names: Vec<&str> = s.iter().map(|d| d.name).collect();
    assert_eq!(names, vec!["y", "x", "z"]);
    assert!(same_name("kernel", "kernel"));
    assert!(!same_name("kernel", "kerne"));
}

#[test]
fn reserved_list_gets_kernel_and_allocator_regions() {
    let mut list: heapless::Vec<MemoryDescriptor, 32> = heapless::Vec::new();
    list.push(desc("Kernel", 0x4000_0000, 0x1000)).unwrap();
    let r = rsv_memories(list, 0x4000_1000..0x4000_3000, desc("alloc", 0x5000_0000, 0x1000));
    let got: Vec<(&str, usize, usize)> = r.iter().map(|d| (d.name, d.physical_start, d.size_in_bytes)).collect();
    assert_eq!(got, vec![("Kernel", 0x4000_0000, 0x3000), ("alloc", 0x5000_0000, 0x1000)]);
}

#[test]
fn handoff_wait_spins_then_yields_then_falls_back() {
    let steps: Vec<HandoffWait> = (1..=36).map(handoff_wait_step).collect();
    assert!(steps[..31].iter().all(|s| *s == HandoffWait::Spin));
    assert_eq!(steps[31], HandoffWait::SpinThenYield);
    assert_eq!(&steps[32..35], &[HandoffWait::Yield; 3]);
    assert_eq!(steps[35], HandoffWait::Fallback);
}

#[test]
fn percpu_plan_places_every_cpu() {
    let l = layout();
    let (total, plan) = percpu_plan(l, &[0x100, 0x200], 0x8000_0000, 0x1000_0000, 0xdead_0000);
    assert_eq!(total, 0xa000);
    assert_eq!(plan.len(), 2);
    assert_eq!(plan[0].0, 0x8000_0000);
    assert_eq!(plan[1].0, 0x8000_5000);
    let m: PerCpuMeta = plan[1].1;
    assert_eq!(m.cpu_idx, 1);
    assert_eq!(m.cpu_id, 0x200);
    assert_eq!(m.stack_top, 0x8000_5000 + 0x1000 + 0x4000);
    assert_eq!(m.stack_top_virt, 0x9000_a000);
    assert_eq!(m.entry_virt, 0xdead_0000);
    assert_eq!(m.boot_table_paddr, 0);
    let (none_total, none) = percpu_plan(l, &[], 0x8000_0000, 0, 0);
    assert_eq!(none_total, 0);
    assert!(none.is_empty());
}

#[test]
fn build_layout_uses_meta_align() {
    let l = PerCpuLayout::for_build(0x100, 0x1000, 0x4000);
    assert_eq!(l.meta_align, meta_align());
    assert!(l.meta_align >= 64);
    assert_eq!(l.meta_size, std::mem::size_of::<PerCpuMeta>());
    assert_eq!(l.meta_offset(), 0x100);
}

#[test]
fn listen_queue_stops_at_its_capacity() {
    let mut t = ListenTable::new();
    t.listen(any_port(9000), false, false).unwrap();
    for h in 0..LISTEN_QUEUE_SIZE as u64 {
        assert!(t.incoming_tcp_packet(v4_dst(9000), h));
    }
    assert!(!t.incoming_tcp_packet(v4_dst(9000), 9999));
    assert_eq!(t.syn_queue(9000, false).unwrap().len(), LISTEN_QUEUE_SIZE);
}

#[test]
fn to_phys_is_idempotent() {
    for a in [0x9000_0000_8020_0000usize, 0x8020_0000, usize::MAX, 0] {
        let p = to_phys(a);
        assert!(p < 1 << 48);
        assert_eq!(to_phys(p), p);
    }
    assert_eq!(to_phys(0x9000_0000_8020_0000), 0x8020_0000);
}

#[test]
fn new_aligned_matches_range_aligned() {
    let a = MemoryDescriptor::new_aligned("x", 0x1001, 0x10, MemoryType::Reserved, 0x1000);
    assert_eq!((a.name, a.physical_start, a.size_in_bytes), ("x", 0x1000, 0x1000));
    assert_eq!(a.memory_type, MemoryType::Reserved);
    let b = MemoryDescriptor::new_with_range_aligned("x", 0x1001..0x1011, MemoryType::Reserved, 0x1000);
    assert_eq!((b.name, b.physical_start, b.size_in_bytes), (a.name, a.physical_start, a.size_in_bytes));
}

fn any_port(port: u16) -> IpListenEndpoint {
    IpListenEndpoint { addr: None, port }
}

fn v4_dst(port: u16) -> IpEndpoint {
    IpEndpoint { addr: IpAddress::Ipv4(0x0a00_0002), port }
}

#[test]
fn listen_endpoint_for_follows_the_chosen_listener() {
    let mut t = ListenTable::new();
    let v6 = IpListenEndpoint { addr: Some(IpAddress::Ipv6(1)), port: 7000 };
    assert_eq!(t.listen(v6, true, false), Ok(()));
    // A dual-stack listener takes IPv4 requests too.
    assert_eq!(
        t.listen_endpoint_for(v4_dst(7000)),
        Some(IpListenEndpoint { addr: Some(IpAddress::Ipv6(1)), port: 7000 })
    );
    let v6_dst = IpEndpoint { addr: IpAddress::Ipv6(1), port: 7000 };
    assert!(t.incoming_tcp_packet(v6_dst, 1));
    assert_eq!(t.syn_queue(7000, true).unwrap(), &vec![1]);
    assert_eq!(t.listen_endpoint_for(v4_dst(7001)), None);
    let only6 = IpListenEndpoint { addr: None, port: 7002 };
    assert_eq!(t.listen(only6, true, true), Ok(()));
    assert_eq!(t.listen_endpoint_for(v4_dst(7002)), None);
    assert!(!t.incoming_tcp_packet(v4_dst(7002), 2));
}

#[test]
fn range_aligned_accepts_a_reversed_range_inside_one_block() {
    let d = MemoryDescriptor::new_with_range_aligned("r", 0x1500..0x1400, MemoryType::Free, 0x1000);
    assert_eq!(
        d,
        MemoryDescriptor { name: "r", physical_start: 0x1000, size_in_bytes: 0x1000, memory_type: MemoryType::Free }
    );
}

#[test]
fn lie_update_touches_one_line() {
    let lie = lie_update(0b101, 1, true);
    assert!(lie_contains(lie, 1));
    assert!(lie_contains(lie, 0) && lie_contains(lie, 2));
    let lie = lie_update(lie, 0, false);
    assert!(!lie_contains(lie, 0));
    assert!(lie_contains(lie, 1) && lie_contains(lie, 2));
}
