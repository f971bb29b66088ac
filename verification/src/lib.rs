pub mod addr;
pub mod align;
pub mod arch;
pub mod boot_arch;
pub mod dma;
pub mod drivers;
pub mod efi;
pub mod hal;
pub mod hvec;
pub mod ids;
pub mod irq;
pub mod listen_table;
pub mod main_memory;
pub mod memmap;
pub mod memory;
pub mod mmu;
pub mod mutex;
pub mod neighbor;
pub mod page_table;
pub mod paging;
pub mod percpu;
pub mod strace;
pub mod sync;
pub mod unmap;
