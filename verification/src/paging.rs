//! Geometry of multi-level page tables: how large a region one entry maps at
//! each level, which entry an address selects, and which mapping requests
//! are acceptable.
use crate::addr::{PhysAddr, VirtAddr};
use vstd::arithmetic::power2::pow2;
use vstd::prelude::*;

verus! {

/// Why a paging operation failed.
#[derive(Debug, Clone, Copy, PartialEq, Eq)]
pub enum PagingError {
    NoMemory,
    AlreadyMapped,
    NotMapped,
    InvalidSize(&'static str),
    AlignmentError(&'static str),
    AddressOverflow(&'static str),
    InvalidRange(&'static str),
}

impl PagingError {
    /// An invalid-size error with the given message.
    pub fn invalid_size(msg: &'static str) -> (e: Self)
        ensures
            e == PagingError::InvalidSize(msg),
    {
        PagingError::InvalidSize(msg)
    }

    /// An alignment error with the given message.
    pub fn alignment_error(msg: &'static str) -> (e: Self)
        ensures
            e == PagingError::AlignmentError(msg),
    {
        PagingError::AlignmentError(msg)
    }

    /// An address-overflow error with the given message.
    pub fn address_overflow(msg: &'static str) -> (e: Self)
        ensures
            e == PagingError::AddressOverflow(msg),
    {
        PagingError::AddressOverflow(msg)
    }

    /// An invalid-range error with the given message.
    pub fn invalid_range(msg: &'static str) -> (e: Self)
        ensures
            e == PagingError::InvalidRange(msg),
    {
        PagingError::InvalidRange(msg)
    }
}

/// The shape of a page table: page size, number of levels (level 1 maps
/// pages, the root is level `levels`), index bits per level, and the highest
/// level whose entries may map a block directly.
#[derive(Debug, Clone, Copy)]
pub struct PagingConfig {
    pub page_size: usize,
    pub levels: usize,
    pub index_bits: usize,
    pub max_block_level: usize,
}

impl PagingConfig {
    /// Whether the page size is `2^page_shift`.
    pub open spec fn page_shift_is(self, page_shift: nat) -> bool {
        page_shift < 64 && self.page_size == pow2(page_shift)
    }

    /// Number of address bits an entry at `level` spans beyond a page: the
    /// index bits of every level below it (level 1 maps pages).
    pub open spec fn level_shift_spec(self, level: int) -> int {
        self.index_bits * (level - 1)
    }

    /// Size of the region one entry at `level` maps: a page at level 1, and
    /// `2^index_bits` times more at each level above.
    pub open spec fn level_size_spec(self, level: int) -> int {
        self.page_size * pow2(self.level_shift_spec(level) as nat)
    }

    /// Whether `level_size` can compute the size at `level` without overflow.
    pub open spec fn level_size_ok(self, level: int) -> bool {
        &&& 0 <= self.level_shift_spec(level) < usize::BITS
        &&& self.level_size_spec(level) <= usize::MAX
    }

    /// Size of the region one entry at `level` maps: a page at level 1, and
    /// a page times 2 to the index bits of every level below `level` above.
    pub fn level_size(&self, level: usize) -> (s: usize)
        requires
            1 <= level <= self.levels,
            self.level_size_ok(level as int),
        ensures
            s == self.level_size_spec(level as int),
    {
        let shift = self.index_bits * (level - 1);
        proof {
            vstd::bits::lemma_usize_shl_is_mul(self.page_size, shift);
        }
        self.page_size << shift
    }

    /// The index bits of `vaddr` that select the entry at `level`.
    pub open spec fn virt_to_index_spec(self, vaddr: usize, level: int, page_shift: nat) -> int {
        ((vaddr as nat / pow2((page_shift + self.level_shift_spec(level)) as nat)) % pow2(
            self.index_bits as nat,
        )) as int
    }

    /// The entry that `vaddr` selects in a table at `level` (from 1 at the
    /// bottom to `levels` at the root).
    pub fn virt_to_index(&self, vaddr: VirtAddr, level: usize, Ghost(page_shift): Ghost<nat>) -> (i: usize)
        requires
            1 <= level <= self.levels,
            self.page_shift_is(page_shift),
            page_shift + self.level_shift_spec(level as int) < usize::BITS,
            self.index_bits < usize::BITS,
        ensures
            i == self.virt_to_index_spec(vaddr@, level as int, page_shift),
    {
        let page_shift_bits = page_shift_of(self.page_size, Ghost(page_shift));
        assert(0 <= self.index_bits * (level - 1)) by (nonlinear_arith)
            requires
                level >= 1,
        ;
        assert((level - 1) * self.index_bits == self.index_bits * (level - 1)) by (nonlinear_arith);
        let shift = page_shift_bits + (level - 1) * self.index_bits;
        let mask = index_mask(self.index_bits);
        let x = vaddr.raw() >> shift;
        proof {
            vstd::bits::lemma_usize_shr_is_div(vaddr@, shift);
            assert(shift as nat == (page_shift + self.level_shift_spec(level as int)) as nat);
            assert(x == vaddr@ as nat / pow2((page_shift + self.level_shift_spec(level as int)) as nat));
            vstd::bits::lemma_usize_low_bits_mask_is_mod(x, self.index_bits as nat);
            vstd::bits::lemma_usize_pow2_no_overflow(self.index_bits as nat);
            assert(x & mask == x % (pow2(self.index_bits as nat) as usize));
        }
        x & mask
    }

    /// The address of entry `index` of a table at `level` whose region
    /// starts at `base`.
    pub fn reconstruct_vaddr(&self, index: usize, level: usize, base_vaddr: VirtAddr) -> (v: VirtAddr)
        requires
            1 <= level <= self.levels,
            self.level_size_ok(level as int),
            base_vaddr@ + index * self.level_size_spec(level as int) <= usize::MAX,
        ensures
            v@ == base_vaddr@ + index * self.level_size_spec(level as int),
    {
        let entry_size = self.level_size(level);
        assert(0 <= index * entry_size) by (nonlinear_arith)
            requires
                index >= 0,
                entry_size >= 0,
        ;
        base_vaddr + index * entry_size
    }

    /// Checks a mapping request: the size must not be zero and both
    /// addresses must be page aligned.
    pub fn validate_map_config<P>(&self, config: &MapConfig<P>) -> (r: Result<(), PagingError>)
        requires
            self.page_size > 0,
        ensures
            config.size == 0 ==> r == Err::<(), PagingError>(PagingError::InvalidSize("Size cannot be zero")),
            config.size != 0 && config.vaddr@ % self.page_size != 0 ==> r == Err::<(), PagingError>(
                PagingError::AlignmentError("Virtual address not page aligned"),
            ),
            config.size != 0 && config.vaddr@ % self.page_size == 0 && config.paddr@ % self.page_size
                != 0 ==> r == Err::<(), PagingError>(
                PagingError::AlignmentError("Physical address not page aligned"),
            ),
            config.size != 0 && config.vaddr@ % self.page_size == 0 && config.paddr@ % self.page_size
                == 0 ==> r is Ok,
            r == self.validate_map_config_spec(config),
    {
        if config.size == 0 {
            return Err(PagingError::invalid_size("Size cannot be zero"));
        }
        if config.vaddr.raw() % self.page_size != 0 {
            return Err(PagingError::alignment_error("Virtual address not page aligned"));
        }
        if config.paddr.raw() % self.page_size != 0 {
            return Err(PagingError::alignment_error("Physical address not page aligned"));
        }
        Ok(())
    }

    /// Checks a mapping request before any table is touched: it must pass
    /// `validate_map_config`, and neither range may run past the end of the
    /// address space.
    pub fn check_map_request<P>(&self, config: &MapConfig<P>) -> (r: Result<(), PagingError>)
        requires
            self.page_size > 0,
        ensures
            r is Ok <==> (config.size != 0 && config.vaddr@ % self.page_size == 0 && config.paddr@
                % self.page_size == 0 && config.vaddr@ + config.size <= usize::MAX && config.paddr@
                + config.size <= usize::MAX),
            config.size != 0 && config.vaddr@ % self.page_size == 0 && config.paddr@ % self.page_size
                == 0 && !(config.vaddr@ + config.size <= usize::MAX && config.paddr@ + config.size
                <= usize::MAX) ==> r == Err::<(), PagingError>(
                PagingError::AddressOverflow("Virtual or physical address overflow"),
            ),
            (config.size == 0 || config.vaddr@ % self.page_size != 0 || config.paddr@ % self.page_size
                != 0) ==> r == self.validate_map_config_spec(config),
            r == self.check_map_request_spec(config),
    {
        self.validate_map_config(config)?;
        if config.vaddr.raw().checked_add(config.size).is_none() || config.paddr.raw().checked_add(
            config.size,
        ).is_none() {
            return Err(PagingError::address_overflow("Virtual or physical address overflow"));
        }
        Ok(())
    }

    /// What `check_map_request` returns: the answer of
    /// `validate_map_config`, and then `AddressOverflow` when either range
    /// runs past the end of the address space.
    pub open spec fn check_map_request_spec<P>(self, config: &MapConfig<P>) -> Result<(), PagingError> {
        if self.validate_map_config_spec(config) is Err {
            self.validate_map_config_spec(config)
        } else if config.vaddr@ + config.size > usize::MAX || config.paddr@ + config.size > usize::MAX {
            Err(PagingError::AddressOverflow("Virtual or physical address overflow"))
        } else {
            Ok(())
        }
    }

    /// What `validate_map_config` returns.
    pub open spec fn validate_map_config_spec<P>(self, config: &MapConfig<P>) -> Result<(), PagingError> {
        if config.size == 0 {
            Err(PagingError::InvalidSize("Size cannot be zero"))
        } else if config.vaddr@ % self.page_size != 0 {
            Err(PagingError::AlignmentError("Virtual address not page aligned"))
        } else if config.paddr@ % self.page_size != 0 {
            Err(PagingError::AlignmentError("Physical address not page aligned"))
        } else {
            Ok(())
        }
    }
}

/// The mask of the low `bits` bits.
fn index_mask(bits: usize) -> (m: usize)
    requires
        bits < usize::BITS,
    ensures
        m == vstd::bits::low_bits_mask(bits as nat),
{
    proof {
        vstd::bits::lemma_usize_pow2_no_overflow(bits as nat);
        vstd::bits::lemma_usize_shl_is_mul(1, bits);
        vstd::arithmetic::power2::lemma_pow2_pos(bits as nat);
    }
    (1usize << bits) - 1
}

/// The base-2 logarithm of the page size, found as its number of trailing zero bits.
pub(crate) fn page_shift_of(page_size: usize, Ghost(page_shift): Ghost<nat>) -> (s: usize)
    requires
        page_shift < 64,
        page_size == pow2(page_shift),
    ensures
        s == page_shift,
{
    let mut s: usize = 0;
    let mut rest = page_size;
    proof {
        vstd::arithmetic::power2::lemma_pow2_pos(page_shift);
    }
    while rest % 2 == 0
        invariant
            s <= page_shift,
            rest == pow2((page_shift - s) as nat),
            rest > 0,
            page_shift < 64,
        decreases rest,
    {
        proof {
            if s == page_shift {
                vstd::arithmetic::power2::lemma2_to64();
            }
            vstd::arithmetic::power2::lemma_pow2_unfold((page_shift - s) as nat);
        }
        rest = rest / 2;
        s = s + 1;
        proof {
            vstd::arithmetic::power2::lemma_pow2_pos((page_shift - s) as nat);
        }
    }
    proof {
        if s < page_shift {
            vstd::arithmetic::power2::lemma_pow2_unfold((page_shift - s) as nat);
        }
    }
    s
}

/// A mapping request: `size` bytes from `vaddr` onto `paddr`, with `pte`
/// as the template of the entries written.
#[derive(Debug, Clone, Copy)]
pub struct MapConfig<P> {
    pub vaddr: VirtAddr,
    pub paddr: PhysAddr,
    pub size: usize,
    pub pte: P,
    pub allow_huge: bool,
    pub flush: bool,
}

/// Which addresses a walk visits: `[start_vaddr, end_vaddr)`, and whether
/// invalid entries are reported too.
#[derive(Debug, Clone, Copy)]
pub struct WalkConfig {
    pub start_vaddr: VirtAddr,
    pub end_vaddr: VirtAddr,
    pub visit_invalid: bool,
}

/// Checks a request to release the tables of `[start_vaddr, end_vaddr)`: the
/// range must not be empty.
pub fn deallocate_range_check(start_vaddr: VirtAddr, end_vaddr: VirtAddr) -> (r: Result<(), PagingError>)
    ensures
        start_vaddr@ >= end_vaddr@ ==> r == Err::<(), PagingError>(
            PagingError::InvalidRange("Start address must be less than end address"),
        ),
        start_vaddr@ < end_vaddr@ ==> r is Ok,
{
    if start_vaddr.raw() >= end_vaddr.raw() {
        return Err(PagingError::invalid_range("Start address must be less than end address"));
    }
    Ok(())
}

} // verus!
