use std::collections::HashMap;

use sparreal::addr::{PhysAddr, VirtAddr};
use sparreal::boot_arch::{Entry, Generic};
use sparreal::page_table::{
    Frame, FrameAllocator, PageTable, PageTableEntry, PageTableWalker, PteReader, PteWriter,
    TableGeneric,
};
use sparreal::paging::{MapConfig, PagingError, WalkConfig};

#[derive(Clone)]
struct FixedAlloc(Option<usize>);

impl FrameAllocator for FixedAlloc {
    fn alloc_frame(&self) -> Option<PhysAddr> {
        self.0.map(PhysAddr::new)
    }

    fn dealloc_frame(&self, _frame: PhysAddr) {}

    fn phys_to_virt(&self, paddr: PhysAddr) -> usize {
        paddr.raw()
    }
}

#[test]
fn riscv_geometry() {
    assert_eq!(PageTable::<Generic, FixedAlloc>::page_size(), 0x1000);
    assert_eq!(PageTable::<Generic, FixedAlloc>::table_levels(), 4);
    assert_eq!(PageTable::<Generic, FixedAlloc>::valid_bits(), 48);
}

#[test]
fn new_table_takes_root_from_allocator() {
    let t = PageTable::<Generic, FixedAlloc>::new(FixedAlloc(Some(0x8000_0000))).unwrap();
    assert_eq!(t.root_paddr().raw(), 0x8000_0000);
}

#[test]
fn new_table_without_memory_fails() {
    let r = PageTable::<Generic, FixedAlloc>::new(FixedAlloc(None));
    assert_eq!(r.err(), Some(PagingError::NoMemory));
}

#[test]
fn level_size_follows_block_levels() {
    // Level 1 maps pages; each level above covers 2^9 times more.
    assert_eq!(Frame::<Generic, FixedAlloc>::level_size(1), 0x1000);
    assert_eq!(Frame::<Generic, FixedAlloc>::level_size(2), 0x20_0000);
    assert_eq!(Frame::<Generic, FixedAlloc>::level_size(3), 0x4000_0000);
    assert_eq!(Frame::<Generic, FixedAlloc>::level_size(4), 0x1000usize << 27);
}

#[test]
fn virt_to_index_picks_the_level_bits() {
    let va = VirtAddr::new((5 << 39) | (6 << 30) | (7 << 21) | (8 << 12) | 0x123);
    assert_eq!(Frame::<Generic, FixedAlloc>::virt_to_index(va, 4), 5);
    assert_eq!(Frame::<Generic, FixedAlloc>::virt_to_index(va, 3), 6);
    assert_eq!(Frame::<Generic, FixedAlloc>::virt_to_index(va, 2), 7);
    assert_eq!(Frame::<Generic, FixedAlloc>::virt_to_index(va, 1), 8);
}

#[test]
fn deallocate_range_rejects_empty_range() {
    let mut t = PageTable::<Tiny, FixedAlloc>::new(FixedAlloc(Some(0x1000))).unwrap();
    let mut mem = tiny_memory();
    assert_eq!(
        t.deallocate_range(VirtAddr::new(0x2000), VirtAddr::new(0x2000), &mut mem),
        Err(PagingError::InvalidRange("Start address must be less than end address"))
    );
    assert_eq!(t.walk_valid(&mem).len(), 3);
    assert_eq!(t.root_paddr().raw(), 0x1000);
}

#[test]
fn map_requests_are_validated() {
    let t = PageTable::<Generic, FixedAlloc>::new(FixedAlloc(Some(0x1000))).unwrap();
    let mut c = MapConfig {
        vaddr: VirtAddr::new(0x1000),
        paddr: PhysAddr::new(0x2000),
        size: 0,
        pte: Entry::new_valid(),
        allow_huge: false,
        flush: false,
    };
    assert_eq!(t.validate_map_config(&c), Err(PagingError::InvalidSize("Size cannot be zero")));
    c.size = 0x1000;
    assert_eq!(t.validate_map_config(&c), Ok(()));
    c.vaddr = VirtAddr::new(0x1001);
    assert_eq!(
        t.validate_map_config(&c),
        Err(PagingError::AlignmentError("Virtual address not page aligned"))
    );
    c.vaddr = VirtAddr::new(0x1000);
    c.paddr = PhysAddr::new(0x2001);
    assert_eq!(
        t.validate_map_config(&c),
        Err(PagingError::AlignmentError("Physical address not page aligned"))
    );
}

#[test]
fn placeholder_entry_is_never_valid() {
    let mut e = Entry::new_valid();
    e.set_valid(true);
    assert!(!e.valid());
    assert_eq!(e.paddr(true).raw(), 0);
    assert!(!e.is_huge(true));
}

// A two-level geometry with four entries per table, used to walk a small
// table held in a map from frame address to entries.
#[derive(Clone, Copy)]
struct Tiny;

#[derive(Clone, Copy, Debug, PartialEq)]
struct TinyPte {
    valid: bool,
    huge: bool,
    addr: usize,
}

impl PageTableEntry for TinyPte {
    fn is_valid(&self) -> bool {
        self.valid
    }
    fn paddr_spec(&self, _is_dir: bool) -> usize {
        self.addr
    }
    fn is_huge_spec(&self, _is_dir: bool) -> bool {
        self.huge
    }
    fn new_valid() -> Self {
        TinyPte { valid: true, huge: false, addr: 0 }
    }
    fn valid(&self) -> bool {
        self.valid
    }
    fn set_valid(&mut self, valid: bool) {
        self.valid = valid;
    }
    fn paddr(&self, _is_dir: bool) -> PhysAddr {
        PhysAddr::new(self.addr)
    }
    fn set_paddr(&mut self, paddr: PhysAddr, _is_dir: bool) {
        self.addr = paddr.raw();
    }
    fn is_huge(&self, _is_dir: bool) -> bool {
        self.huge
    }
    fn set_is_huge(&mut self, b: bool, _is_dir: bool) {
        self.huge = b;
    }
    fn is_writable(&self) -> bool {
        false
    }
    fn set_writable(&mut self, _b: bool) {}
    fn is_executable(&self) -> bool {
        false
    }
    fn set_executable(&mut self, _b: bool) {}
    fn is_lower_access(&self) -> bool {
        false
    }
    fn set_lower_access(&mut self, _b: bool) {}
    fn is_global(&self, _is_dir: bool) -> bool {
        false
    }
    fn set_global(&mut self, _b: bool, _is_dir: bool) {}
    fn is_accessed(&self) -> bool {
        false
    }
    fn set_accessed(&mut self, _b: bool) {}
    fn is_dirty(&self) -> bool {
        false
    }
    fn set_dirty(&mut self, _b: bool) {}
}

impl TableGeneric for Tiny {
    type P = TinyPte;
    const PAGE_SIZE: usize = 0x1000;
    const LEVEL: usize = 2;
    const INDEX_BITS: usize = 2;
    const MAX_BLOCK_LEVEL: usize = 1;
    fn flush(_vaddr: Option<VirtAddr>) {}
}

struct Memory(HashMap<usize, [TinyPte; 4]>);

impl PteReader<TinyPte> for Memory {
    fn entry(&self, frame: PhysAddr, index: usize) -> TinyPte {
        self.0[&frame.raw()][index]
    }
    fn read_pte(&self, frame: PhysAddr, index: usize) -> TinyPte {
        self.0[&frame.raw()][index]
    }
}

impl PteWriter<TinyPte> for Memory {
    fn write_pte(&mut self, frame: PhysAddr, index: usize, pte: TinyPte) {
        self.0.get_mut(&frame.raw()).unwrap()[index] = pte;
    }
}

const NONE: TinyPte = TinyPte { valid: false, huge: false, addr: 0 };

fn tiny_memory() -> Memory {
    let mut m = HashMap::new();
    // Root: entry 1 is a table at 0x2000, entry 2 a block, entry 3 invalid.
    m.insert(
        0x1000,
        [
            NONE,
            TinyPte { valid: true, huge: false, addr: 0x2000 },
            TinyPte { valid: true, huge: true, addr: 0x9000 },
            NONE,
        ],
    );
    m.insert(
        0x2000,
        [
            TinyPte { valid: true, huge: false, addr: 0xa000 },
            NONE,
            TinyPte { valid: true, huge: false, addr: 0xb000 },
            NONE,
        ],
    );
    Memory(m)
}

#[test]
fn walk_descends_into_tables_in_order() {
    let t = PageTable::<Tiny, FixedAlloc>::new(FixedAlloc(Some(0x1000))).unwrap();
    let mem = tiny_memory();
    let config = WalkConfig {
        start_vaddr: VirtAddr::new(0),
        end_vaddr: VirtAddr::new(0x10_0000),
        visit_invalid: false,
    };
    let found: Vec<(usize, usize, usize)> = t
        .walk(config, &mem)
        .iter()
        .map(|p| (p.level, p.vaddr.raw(), p.pte.addr))
        .collect();
    // A root entry covers four pages (0x4000 bytes), and the child table
    // starts at its entry's address.
    assert_eq!(
        found,
        vec![(1, 0x4000, 0xa000), (1, 0x6000, 0xb000), (2, 0x8000, 0x9000)]
    );
}

#[test]
fn walk_stops_at_the_end_of_the_range() {
    let t = PageTable::<Tiny, FixedAlloc>::new(FixedAlloc(Some(0x1000))).unwrap();
    let mem = tiny_memory();
    let config = WalkConfig {
        start_vaddr: VirtAddr::new(0x5000),
        end_vaddr: VirtAddr::new(0x9000),
        visit_invalid: true,
    };
    let mut w = t.walk_all(config);
    let mut seen = Vec::new();
    while let Some(p) = w.find_next_entry(&mem) {
        seen.push((p.level, p.vaddr.raw(), p.pte.valid));
    }
    // The table at 0x4000 starts below the range but reaches into it, so it
    // is entered: its page at 0x4000 lies below the range, the others are
    // reported. The block at 0x8000 follows and 0xc000 ends the walk.
    assert!(w.finished);
    assert_eq!(
        seen,
        vec![(1, 0x5000, false), (1, 0x6000, true), (1, 0x7000, false), (2, 0x8000, true)]
    );
}

#[test]
fn empty_walk_is_over_at_once() {
    let t = PageTable::<Tiny, FixedAlloc>::new(FixedAlloc(Some(0x1000))).unwrap();
    let config = WalkConfig {
        start_vaddr: VirtAddr::new(0x5000),
        end_vaddr: VirtAddr::new(0x5000),
        visit_invalid: true,
    };
    let mut w = PageTableWalker::new(&t, config);
    assert!(w.finished);
    assert!(w.find_next_entry(&tiny_memory()).is_none());
}

#[test]
fn walk_valid_reports_every_valid_mapping() {
    let t = PageTable::<Tiny, FixedAlloc>::new(FixedAlloc(Some(0x1000))).unwrap();
    assert_eq!(t.walk_valid(&tiny_memory()).len(), 3);
}

#[test]
fn walk_valid_reports_mappings_in_address_order() {
    let t = PageTable::<Tiny, FixedAlloc>::new(FixedAlloc(Some(0x1000))).unwrap();
    let found: Vec<usize> = t.walk_valid(&tiny_memory()).iter().map(|p| p.vaddr.raw()).collect();
    assert_eq!(found, vec![0x4000, 0x6000, 0x8000]);
    assert!(found.windows(2).all(|w| w[0] < w[1]));
}

#[test]
fn walk_skips_tables_wholly_below_the_range() {
    let t = PageTable::<Tiny, FixedAlloc>::new(FixedAlloc(Some(0x1000))).unwrap();
    let config = WalkConfig {
        start_vaddr: VirtAddr::new(0x8000),
        end_vaddr: VirtAddr::new(usize::MAX),
        visit_invalid: false,
    };
    let found: Vec<(usize, usize)> =
        t.walk(config, &tiny_memory()).iter().map(|p| (p.level, p.vaddr.raw())).collect();
    assert_eq!(found, vec![(2, 0x8000)]);
}

#[test]
fn check_map_validates_then_refuses_overflow() {
    let t = PageTable::<Generic, FixedAlloc>::new(FixedAlloc(Some(0x1000))).unwrap();
    let mut c = MapConfig {
        vaddr: VirtAddr::new(0x1000),
        paddr: PhysAddr::new(0x2000),
        size: 0,
        pte: Entry::new_valid(),
        allow_huge: false,
        flush: false,
    };
    assert_eq!(t.check_map(&c), Err(PagingError::InvalidSize("Size cannot be zero")));
    c.size = 0x2000;
    assert_eq!(t.check_map(&c), Ok(()));
    c.vaddr = VirtAddr::new(0x1001);
    assert_eq!(
        t.check_map(&c),
        Err(PagingError::AlignmentError("Virtual address not page aligned"))
    );
    c.vaddr = VirtAddr::new(usize::MAX - 0xfff);
    assert_eq!(
        t.check_map(&c),
        Err(PagingError::AddressOverflow("Virtual or physical address overflow"))
    );
}

#[test]
fn deallocate_range_unmaps_pages_in_the_range() {
    let mut t = PageTable::<Tiny, FixedAlloc>::new(FixedAlloc(Some(0x1000))).unwrap();
    let mut mem = tiny_memory();
    let (slots, tables) =
        t.unmap_plan(VirtAddr::new(0x5000), VirtAddr::new(0x7000), &mem);
    assert_eq!(
        slots.iter().map(|(f, i)| (f.raw(), *i)).collect::<Vec<_>>(),
        vec![(0x2000, 2)]
    );
    assert!(tables.is_empty());
    assert_eq!(t.deallocate_range(VirtAddr::new(0x5000), VirtAddr::new(0x7000), &mut mem), Ok(()));
    let left: Vec<usize> = t.walk_valid(&mem).iter().map(|p| p.vaddr.raw()).collect();
    assert_eq!(left, vec![0x4000, 0x8000]);
    // The table at 0x2000 still holds its other page.
    assert!(mem.0[&0x2000][0].valid);
    assert!(!mem.0[&0x2000][2].valid);
}

#[test]
fn deallocate_range_frees_tables_wholly_inside() {
    let mut t = PageTable::<Tiny, FixedAlloc>::new(FixedAlloc(Some(0x1000))).unwrap();
    let mut mem = tiny_memory();
    let (slots, tables) = t.unmap_plan(VirtAddr::new(0x4000), VirtAddr::new(0xc000), &mem);
    assert_eq!(
        slots.iter().map(|(f, i)| (f.raw(), *i)).collect::<Vec<_>>(),
        vec![(0x2000, 0), (0x2000, 2), (0x1000, 2)]
    );
    assert_eq!(
        tables.iter().map(|(f, i, c)| (f.raw(), *i, c.raw())).collect::<Vec<_>>(),
        vec![(0x1000, 1, 0x2000)]
    );
    assert_eq!(t.deallocate_range(VirtAddr::new(0x4000), VirtAddr::new(0xc000), &mut mem), Ok(()));
    assert!(t.walk_valid(&mem).is_empty());
    assert!(!mem.0[&0x1000][1].valid);
    assert!(!mem.0[&0x1000][2].valid);
}

#[test]
fn table_with_an_empty_root_maps_nothing() {
    let t = PageTable::<Tiny, FixedAlloc>::new(FixedAlloc(Some(0x3000))).unwrap();
    let mut m = HashMap::new();
    m.insert(0x3000, [NONE; 4]);
    let mem = Memory(m);
    assert!(t.walk_valid(&mem).is_empty());
    let f = PageTable::<Tiny, FixedAlloc>::from_alloc(FixedAlloc(None), Some(PhysAddr::new(0x5000))).unwrap();
    assert_eq!(f.root_paddr().raw(), 0x5000);
    assert!(PageTable::<Tiny, FixedAlloc>::from_alloc(FixedAlloc(None), None).is_err());
}
