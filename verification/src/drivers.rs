//! Decisions of the SD card and clock drivers.
use vstd::prelude::*;

verus! {

/// Byte offset of the partition the SD card driver exposes.
pub const SDCARD_OFFSET: usize = 0x400_0000;

/// Size of an SD card block.
pub const BLOCK_SIZE: usize = 512;

/// The card block that block `block_id` of the exposed partition lives in.
pub fn actual_block_id(block_id: usize) -> (b: usize)
    requires
        block_id + SDCARD_OFFSET / BLOCK_SIZE <= usize::MAX,
    ensures
        b == block_id + SDCARD_OFFSET / BLOCK_SIZE,
{
    block_id + SDCARD_OFFSET / BLOCK_SIZE
}

/// Why a block request was refused.
#[derive(Debug, Clone, Copy, PartialEq, Eq, Structural)]
pub enum BufferError {
    /// The buffer holds fewer bytes than a block.
    TooSmall(usize),
}

/// Checks that a request buffer of `len` bytes holds a whole block.
pub fn check_buffer_len(len: usize) -> (r: Result<(), BufferError>)
    ensures
        len < BLOCK_SIZE ==> r == Err::<(), BufferError>(BufferError::TooSmall(len)),
        len >= BLOCK_SIZE ==> r is Ok,
{
    if len < BLOCK_SIZE {
        return Err(BufferError::TooSmall(len));
    }
    Ok(())
}

/// Clock id of the eMMC card clock.
pub const EMMC_CLK_ID: usize = 0x7c;

pub const MHZ: u32 = 1_000_000;

pub const KHZ: u32 = 1_000;

/// Sources the eMMC card clock can be taken from.
#[derive(Debug, Clone, Copy, PartialEq, Eq, Structural)]
pub enum EmmcClockSource {
    /// 24 MHz oscillator.
    XinSoc0Mux,
    /// 50 MHz divider.
    CplDiv50M,
    /// 100 MHz divider.
    CplDiv100M,
    /// 150 MHz divider.
    GplDiv150M,
    /// 200 MHz divider.
    GplDiv200M,
    /// 375 kHz source.
    Soc0375K,
}

/// The eMMC clock source for a requested rate, taken by its low 32 bits;
/// `None` for a rate that no source provides.
pub fn emmc_clock_source(rate: u64) -> (r: Option<EmmcClockSource>)
    ensures
        r == (if rate as u32 == 24_000_000 {
            Some(EmmcClockSource::XinSoc0Mux)
        } else if rate as u32 == 52_000_000 || rate as u32 == 50_000_000 {
            Some(EmmcClockSource::CplDiv50M)
        } else if rate as u32 == 100_000_000 {
            Some(EmmcClockSource::CplDiv100M)
        } else if rate as u32 == 150_000_000 {
            Some(EmmcClockSource::GplDiv150M)
        } else if rate as u32 == 200_000_000 {
            Some(EmmcClockSource::GplDiv200M)
        } else if rate as u32 == 400_000 || rate as u32 == 375_000 {
            Some(EmmcClockSource::Soc0375K)
        } else {
            None
        }),
{
    let r = rate as u32;
    if r == 24 * MHZ {
        Some(EmmcClockSource::XinSoc0Mux)
    } else if r == 52 * MHZ || r == 50 * MHZ {
        Some(EmmcClockSource::CplDiv50M)
    } else if r == 100 * MHZ {
        Some(EmmcClockSource::CplDiv100M)
    } else if r == 150 * MHZ {
        Some(EmmcClockSource::GplDiv150M)
    } else if r == 200 * MHZ {
        Some(EmmcClockSource::GplDiv200M)
    } else if r == 400 * KHZ || r == 375 * KHZ {
        Some(EmmcClockSource::Soc0375K)
    } else {
        None
    }
}

/// Whether the clock driver handles clock `id`.
pub fn is_supported_clock(id: usize) -> (b: bool)
    ensures
        b == (id == EMMC_CLK_ID),
{
    id == EMMC_CLK_ID
}

} // verus!
