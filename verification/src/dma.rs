//! DMA transfer directions, handles, and the cache maintenance a transfer needs.
use vstd::prelude::*;

verus! {

/// Which way data moves in a DMA transfer.
#[derive(Debug, Clone, Copy, PartialEq, Eq, Structural)]
pub enum Direction {
    /// From the CPU to the device.
    ToDevice,
    /// From the device to the CPU.
    FromDevice,
    /// Both ways.
    Bidirectional,
}

/// Why a DMA operation failed.
#[derive(Debug, Clone, Copy, PartialEq, Eq, Structural)]
pub enum DmaError {
    InvalidAddress,
    MappingFailed,
    AddressOutOfRange,
    AllocationFailed,
}

impl DmaError {
    /// The message that describes the error.
    pub open spec fn message_spec(self) -> &'static str {
        match self {
            DmaError::InvalidAddress => "Invalid DMA address",
            DmaError::MappingFailed => "DMA mapping failed",
            DmaError::AddressOutOfRange => "Address out of DMA range",
            DmaError::AllocationFailed => "DMA allocation failed",
        }
    }

    /// The message that describes the error.
    pub fn message(&self) -> (m: &'static str)
        ensures
            m == self.message_spec(),
    {
        match self {
            DmaError::InvalidAddress => "Invalid DMA address",
            DmaError::MappingFailed => "DMA mapping failed",
            DmaError::AddressOutOfRange => "Address out of DMA range",
            DmaError::AllocationFailed => "DMA allocation failed",
        }
    }
}

/// A buffer mapped for DMA: its CPU address, its device address, and the
/// size and alignment it was allocated with.
#[derive(Debug, Clone, Copy)]
pub struct DmaHandle {
    pub virt_addr: usize,
    pub dma_addr: u64,
    pub size: usize,
    pub align: usize,
}

/// The operating system services DMA relies on.
pub trait Osal {
    fn page_size(&self) -> usize;

    /// Maps `size` bytes at `addr` for DMA; a handle covering less than
    /// `size` asks the caller to map the rest separately.
    fn map(&self, addr: usize, size: usize, direction: Direction) -> DmaHandle;

    fn unmap(&self, handle: DmaHandle);

    /// Writes cached data back to memory.
    fn flush(&self, addr: usize, size: usize);

    /// Discards cached data.
    fn invalidate(&self, addr: usize, size: usize);

    fn alloc_coherent(&self, dma_mask: u64, size: usize, align: usize) -> DmaHandle;

    fn dealloc_coherent(&self, handle: DmaHandle);
}

/// The operations of a DMA back end, on addresses as integers.
pub trait DmaOp {
    fn page_size(&self) -> usize;

    /// Maps the single contiguous block of `size` bytes at `addr` for a
    /// device limited to addresses under `dma_mask`.
    fn map_single(&self, dma_mask: u64, addr: usize, size: usize, direction: Direction) -> Result<
        DmaHandle,
        DmaError,
    >;

    /// Undoes a `map_single`.
    fn unmap_single(&self, handle: DmaHandle);

    /// Writes cached data back to memory.
    fn flush(&self, addr: usize, size: usize);

    /// Discards cached data.
    fn invalidate(&self, addr: usize, size: usize);

    /// Contiguous memory that both the CPU and the device reach.
    fn alloc_coherent(&self, dma_mask: u64, size: usize, align: usize) -> Option<DmaHandle>;

    /// Gives back what `alloc_coherent` handed out.
    fn dealloc_coherent(&self, handle: DmaHandle);
}

/// Whether data the device wrote must be fetched past the cache.
pub open spec fn reads_from_device(direction: Direction) -> bool {
    direction == Direction::FromDevice || direction == Direction::Bidirectional
}

/// Whether data the CPU wrote must reach memory for the device.
pub open spec fn writes_to_device(direction: Direction) -> bool {
    direction == Direction::ToDevice || direction == Direction::Bidirectional
}

/// What must be done to a mapped buffer around a transfer: cache maintenance
/// of `size` bytes at `cache_addr`, and, when the buffer the device uses is
/// not the caller's buffer, a copy of `size` bytes from `copy_from` to `copy_to`.
#[derive(Debug, Clone, Copy, PartialEq, Eq, Structural)]
pub struct SyncPlan {
    pub cache_addr: usize,
    pub size: usize,
    pub copy_from: Option<usize>,
    pub copy_to: Option<usize>,
}

/// The plan before a read from the device (see `prepare_read`).
pub open spec fn prepare_read_spec(origin_virt: usize, alloc_virt: Option<usize>, offset: usize, size: usize) -> SyncPlan {
    SyncPlan {
        cache_addr: (match alloc_virt {
            Some(a) => a,
            None => origin_virt,
        } + offset) as usize,
        size,
        copy_from: match alloc_virt {
            Some(a) => if a != origin_virt {
                Some((a + offset) as usize)
            } else {
                None
            },
            None => None,
        },
        copy_to: match alloc_virt {
            Some(a) => if a != origin_virt {
                Some((origin_virt + offset) as usize)
            } else {
                None
            },
            None => None,
        },
    }
}

/// The plan after a write for the device (see `confirm_write`).
pub open spec fn confirm_write_spec(origin_virt: usize, alloc_virt: Option<usize>, offset: usize, size: usize) -> SyncPlan {
    SyncPlan {
        cache_addr: (match alloc_virt {
            Some(a) => a,
            None => origin_virt,
        } + offset) as usize,
        size,
        copy_from: match alloc_virt {
            Some(a) => if a != origin_virt {
                Some((origin_virt + offset) as usize)
            } else {
                None
            },
            None => None,
        },
        copy_to: match alloc_virt {
            Some(a) => if a != origin_virt {
                Some((a + offset) as usize)
            } else {
                None
            },
            None => None,
        },
    }
}

/// The work before the CPU reads `size` bytes at `offset` of a buffer the
/// device wrote: nothing unless the direction reads from the device; then
/// the device buffer `alloc_virt` (the caller's buffer `origin_virt` when
/// none) is invalidated and, when the two differ, copied into the caller's.
pub fn prepare_read(
    origin_virt: usize,
    alloc_virt: Option<usize>,
    offset: usize,
    size: usize,
    direction: Direction,
) -> (r: Option<SyncPlan>)
    requires
        origin_virt + offset <= usize::MAX,
        alloc_virt matches Some(a) ==> a + offset <= usize::MAX,
    ensures
        !reads_from_device(direction) ==> r is None,
        reads_from_device(direction) ==> r == Some(
            prepare_read_spec(origin_virt, alloc_virt, offset, size),
        ),
        direction == Direction::ToDevice ==> r is None,
        direction == Direction::FromDevice || direction == Direction::Bidirectional ==> r == Some(
            SyncPlan {
                cache_addr: (match alloc_virt {
                    Some(a) => a,
                    None => origin_virt,
                } + offset) as usize,
                size,
                copy_from: match alloc_virt {
                    Some(a) => if a != origin_virt { Some((a + offset) as usize) } else { None },
                    None => None,
                },
                copy_to: match alloc_virt {
                    Some(a) => if a != origin_virt { Some((origin_virt + offset) as usize) } else { None },
                    None => None,
                },
            },
        ),
{
    match direction {
        Direction::FromDevice | Direction::Bidirectional => {
            let base = match alloc_virt {
                Some(a) => a,
                None => origin_virt,
            };
            let (from, to) = match alloc_virt {
                Some(a) => if a != origin_virt {
                    (Some(a + offset), Some(origin_virt + offset))
                } else {
                    (None, None)
                },
                None => (None, None),
            };
            Some(SyncPlan { cache_addr: base + offset, size, copy_from: from, copy_to: to })
        },
        Direction::ToDevice => None,
    }
}

/// The work after the CPU wrote `size` bytes at `offset` of a buffer the
/// device will read: nothing unless the direction writes to the device;
/// then the caller's buffer is copied into the device buffer when they
/// differ, and the device buffer is flushed.
pub fn confirm_write(
    origin_virt: usize,
    alloc_virt: Option<usize>,
    offset: usize,
    size: usize,
    direction: Direction,
) -> (r: Option<SyncPlan>)
    requires
        origin_virt + offset <= usize::MAX,
        alloc_virt matches Some(a) ==> a + offset <= usize::MAX,
    ensures
        !writes_to_device(direction) ==> r is None,
        writes_to_device(direction) ==> r == Some(
            confirm_write_spec(origin_virt, alloc_virt, offset, size),
        ),
        direction == Direction::FromDevice ==> r is None,
        direction == Direction::ToDevice || direction == Direction::Bidirectional ==> r == Some(
            SyncPlan {
                cache_addr: (match alloc_virt {
                    Some(a) => a,
                    None => origin_virt,
                } + offset) as usize,
                size,
                copy_from: match alloc_virt {
                    Some(a) => if a != origin_virt { Some((origin_virt + offset) as usize) } else { None },
                    None => None,
                },
                copy_to: match alloc_virt {
                    Some(a) => if a != origin_virt { Some((a + offset) as usize) } else { None },
                    None => None,
                },
            },
        ),
{
    match direction {
        Direction::ToDevice | Direction::Bidirectional => {
            let base = match alloc_virt {
                Some(a) => a,
                None => origin_virt,
            };
            let (from, to) = match alloc_virt {
                Some(a) => if a != origin_virt {
                    (Some(origin_virt + offset), Some(a + offset))
                } else {
                    (None, None)
                },
                None => (None, None),
            };
            Some(SyncPlan { cache_addr: base + offset, size, copy_from: from, copy_to: to })
        },
        Direction::FromDevice => None,
    }
}

/// For a bidirectional buffer, the work after a write mirrors the work
/// before a read: the same range is maintained, and the copy runs the other
/// way.
pub proof fn lemma_write_mirrors_read(
    origin_virt: usize,
    alloc_virt: Option<usize>,
    offset: usize,
    size: usize,
    read: SyncPlan,
    write: SyncPlan,
)
    requires
        read == prepare_read_spec(origin_virt, alloc_virt, offset, size),
        write == confirm_write_spec(origin_virt, alloc_virt, offset, size),
    ensures
        write.cache_addr == read.cache_addr,
        write.size == read.size,
        write.copy_from == read.copy_to,
        write.copy_to == read.copy_from,
{
}

/// Data the device writes is fetched past the cache for buffers mapped
/// from the device or both ways, and data the CPU writes reaches memory for
/// buffers mapped to the device or both ways: a bidirectional buffer gets
/// both kinds of work, a one-way buffer only its own.
pub proof fn lemma_directions_sync(direction: Direction)
    ensures
        reads_from_device(direction) <==> (direction == Direction::FromDevice || direction
            == Direction::Bidirectional),
        writes_to_device(direction) <==> (direction == Direction::ToDevice || direction
            == Direction::Bidirectional),
        reads_from_device(Direction::Bidirectional) && writes_to_device(Direction::Bidirectional),
{
}

} // verus!
