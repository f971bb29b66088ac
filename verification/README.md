# sparreal

Verified building blocks of a small kernel and its boot code, written in
Verus: the functions in `src/` carry contracts that Verus proves. A few
that only hand a call to the platform or to an atomic word (the spinlock
word, interrupt masking, the boot architecture's forwarders) state nothing
about what comes back.

## Layout

- `src/` — the verified library.
  - Memory: `memory` (region descriptors), `memmap` (registered RAM and
    reserved regions, sorting and merging, heap ranges, address spaces),
    `main_memory` (choice of the main memory region at boot), `efi`
    (firmware memory map), `align` (rounding, through `num-align`), `hvec`
    (the `heapless` vector type).
  - Paging: `paging` (table geometry and mapping requests), `page_table`
    (generic page table, frames, and the table walker), `unmap` (what
    unmapping a range invalidates and frees), `mmu` (boot regions
    and the boot page table plan).
  - CPUs and boot: `percpu` (per-CPU area layout, CPU ids and indices),
    `boot_arch` (what the boot code asks of an architecture, with a RISC-V
    stand-in), `arch` (LoongArch and AArch64 helpers), `hal` (the platform
    interface), `irq` (interrupt handlers, CPU start-up status, interrupt
    masking).
  - Synchronisation: `mutex` (the hand-off mutex's state word and its
    transitions), `sync` (the spinlock's lock word).
  - Devices and networking: `dma` (cache maintenance plans), `drivers` (SD
    card blocks and eMMC clocks), `listen_table` (TCP listeners and their
    queues), `neighbor` (ARP and IPv6 neighbor discovery decisions of an
    Ethernet interface).
  - Tracing: `strace` (the bounded system call trace buffer and its filter).
  - Identifiers: `ids`, `addr`.
- `tests/` — tests of the library, run as ordinary Rust.
- `app/` — unverified glue: interrupt-safe locks over the library's lock
  word, the blocking mutex's atomic loop, the global trace state,
  conversion of the firmware's memory map, reading table entries out of
  frames, filling per-CPU areas, carrying out DMA plans, printing, and
  error types for `std::error::Error`.
