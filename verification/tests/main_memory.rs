use sparreal::addr::PhysAddr;
use sparreal::main_memory::{
    add_all_ram, available_ranges, find_main_memory, select_main_range, split_regions,
};
use sparreal::mmu::{AccessSetting, BootMemoryKind, BootRegion, CacheSetting, PhysCRange};

fn create_test_region(start: usize, end: usize, name: &'static str, kind: BootMemoryKind) -> BootRegion {
    BootRegion {
        range: PhysCRange { start: PhysAddr::new(start), end: PhysAddr::new(end) },
        name,
        access: AccessSetting::Read | AccessSetting::Write,
        cache: CacheSetting::Normal,
        kind,
    }
}

fn available(regions: &[BootRegion]) -> Vec<PhysCRange> {
    let (rams, others) = split_regions(regions).unwrap();
    let avail = available_ranges(rams.as_slice(), others.as_slice()).unwrap();
    avail.as_slice().to_vec()
}

#[test]
fn test_find_main_memory_simple_case() {
    let regions = [create_test_region(0x40000000, 0x60000000, "ram", BootMemoryKind::Ram)];

    let available_regions = available(&regions);

    assert_eq!(available_regions.len(), 1);
    assert_eq!(available_regions[0].start.raw(), 0x40000000);
    assert_eq!(available_regions[0].end.raw(), 0x60000000);

    const MIN_SIZE: usize = 16 * 1024 * 1024;
    let size = available_regions[0].end.raw() - available_regions[0].start.raw();
    assert!(size >= MIN_SIZE);
}

#[test]
fn test_find_main_memory_with_overlap() {
    let regions = [
        create_test_region(0x40000000, 0x60000000, "ram", BootMemoryKind::Ram),
        create_test_region(0x45000000, 0x46000000, "reserved", BootMemoryKind::Reserved),
    ];

    let available_regions = available(&regions);

    assert_eq!(available_regions.len(), 2);

    let region1 = available_regions.iter().find(|r| r.start.raw() == 0x40000000).unwrap();
    assert_eq!(region1.end.raw(), 0x45000000);

    let region2 = available_regions.iter().find(|r| r.start.raw() == 0x46000000).unwrap();
    assert_eq!(region2.end.raw(), 0x60000000);

    const MIN_SIZE: usize = 16 * 1024 * 1024;
    for region in &available_regions {
        let size = region.end.raw() - region.start.raw();
        assert!(size >= MIN_SIZE);
    }
}

#[test]
fn test_find_main_memory_multiple_overlaps() {
    let regions = [
        create_test_region(0x40000000, 0x80000000, "ram", BootMemoryKind::Ram),
        create_test_region(0x45000000, 0x46000000, "reserved1", BootMemoryKind::Reserved),
        create_test_region(0x50000000, 0x52000000, "reserved2", BootMemoryKind::Reserved),
        create_test_region(0x70000000, 0x71000000, "kimage", BootMemoryKind::KImage),
    ];

    let available_regions = available(&regions);

    assert_eq!(available_regions.len(), 4);

    let expected_regions = [
        (0x40000000, 0x45000000),
        (0x46000000, 0x50000000),
        (0x52000000, 0x70000000),
        (0x71000000, 0x80000000),
    ];

    for (start, end) in expected_regions {
        let region = available_regions.iter().find(|r| r.start.raw() == start).unwrap();
        assert_eq!(region.end.raw(), end);
    }
}

#[test]
fn test_find_main_memory_select_lowest_address() {
    let regions = [
        create_test_region(0x80000000, 0x90000000, "ram1", BootMemoryKind::Ram),
        create_test_region(0x40000000, 0x50000000, "ram2", BootMemoryKind::Ram),
    ];

    let (rams, _) = split_regions(&regions).unwrap();
    let available_regions: Vec<PhysCRange> = rams.iter().map(|r| r.range).collect();

    let best_region = select_main_range(&available_regions);

    assert!(best_region.is_some());
    let selected = best_region.unwrap();
    assert_eq!(selected.start.raw(), 0x40000000);
    assert_eq!(selected.end.raw(), 0x50000000);
}

#[test]
fn test_find_main_memory_no_suitable_region() {
    let regions = [
        create_test_region(0x40000000, 0x40800000, "ram1", BootMemoryKind::Ram),
        create_test_region(0x50000000, 0x50400000, "ram2", BootMemoryKind::Ram),
    ];

    let (rams, _) = split_regions(&regions).unwrap();
    let available_regions: Vec<PhysCRange> = rams.iter().map(|r| r.range).collect();

    let best_region = select_main_range(&available_regions);

    assert!(best_region.is_none());
}

#[test]
fn test_find_main_memory_edge_case_exact_overlap() {
    let regions = [
        create_test_region(0x40000000, 0x50000000, "ram", BootMemoryKind::Ram),
        create_test_region(0x40000000, 0x50000000, "reserved", BootMemoryKind::Reserved),
    ];

    let available_regions = available(&regions);

    assert_eq!(available_regions.len(), 0);
}

#[test]
fn main_memory_is_lowest_large_piece_with_first_ram_settings() {
    let mut ram2 = create_test_region(0x40000000, 0x50000000, "ram2", BootMemoryKind::Ram);
    ram2.cache = CacheSetting::Device;
    let regions = [
        create_test_region(0x80000000, 0x90000000, "ram1", BootMemoryKind::Ram),
        ram2,
        create_test_region(0x40000000, 0x40800000, "rsv", BootMemoryKind::Reserved),
    ];
    let m = find_main_memory(&regions).unwrap();
    assert_eq!(m.range.start.raw(), 0x40800000);
    assert_eq!(m.range.end.raw(), 0x50000000);
    assert_eq!(m.name, "main memory");
    assert_eq!(m.cache, CacheSetting::Normal);
    assert_eq!(m.kind, BootMemoryKind::Ram);
    assert!(m.access.contains(AccessSetting::Write));
}

#[test]
fn main_memory_absent_when_everything_is_small_or_covered() {
    let regions = [
        create_test_region(0x40000000, 0x48000000, "ram", BootMemoryKind::Ram),
        create_test_region(0x40800000, 0x48000000, "rsv", BootMemoryKind::Reserved),
    ];
    assert!(find_main_memory(&regions).is_none());
    assert!(find_main_memory(&[]).is_none());
}

#[test]
fn too_many_regions_fail_the_search() {
    let mut regions = Vec::new();
    for i in 0..33usize {
        regions.push(create_test_region(0x1000_0000 * (i + 1), 0x1000_0000 * (i + 1) + 0x100_0000, "ram", BootMemoryKind::Ram));
    }
    assert!(split_regions(&regions).is_none());
    assert!(find_main_memory(&regions).is_none());
    regions.pop();
    assert_eq!(find_main_memory(&regions).unwrap().range.start.raw(), 0x1000_0000);
}

#[test]
fn too_many_pieces_fail_the_subtraction() {
    let mut regions = vec![create_test_region(0, 0x1000_0000, "ram", BootMemoryKind::Ram)];
    for i in 0..32usize {
        let s = 0x10_0000 * (2 * i + 1);
        regions.push(create_test_region(s, s + 0x10_0000, "hole", BootMemoryKind::Reserved));
    }
    let (rams, others) = split_regions(&regions).unwrap();
    assert!(available_ranges(rams.as_slice(), others.as_slice()).is_none());
}

#[test]
fn other_ram_regions_join_the_heap() {
    let regions = [
        create_test_region(0x4000_0000, 0x6000_0000, "ram", BootMemoryKind::Ram),
        create_test_region(0x4500_0000, 0x4600_0000, "rsv", BootMemoryKind::Reserved),
        create_test_region(0x8000_0000, 0x8100_0000, "ram2", BootMemoryKind::Ram),
    ];
    let off = 0xffff_8000_0000_0000usize;
    assert_eq!(add_all_ram(&regions, 0x4000_0000, off), vec![(0x8000_0000 + off, 0x100_0000)]);
    assert_eq!(
        add_all_ram(&regions, 0x7000_0000, 0),
        vec![(0x4000_0000, 0x2000_0000), (0x8000_0000, 0x100_0000)]
    );
}
