//! Architecture-specific computations: LoongArch address spaces, timer
//! programming and interrupt-enable bits, and AArch64 data aborts.
use vstd::prelude::*;

verus! {

/// Number of physical address bits on LoongArch.
pub const PABITS: usize = 48;

/// The physical address behind a direct-mapped window address: its low
/// `PABITS` bits.
pub open spec fn to_phys_spec(addr: usize) -> int {
    (addr as int) % (vstd::arithmetic::power2::pow2(PABITS as nat) as int)
}

/// The physical address behind a direct-mapped window address: its low 48
/// bits, `addr & ((1 << 48) - 1)` (on a narrower machine every address is
/// its own).
pub fn to_phys(addr: usize) -> (p: usize)
    ensures
        p == to_phys_spec(addr),
        p < vstd::arithmetic::power2::pow2(PABITS as nat),
{
    proof {
        vstd::arithmetic::power2::lemma_pow2_pos(PABITS as nat);
        vstd::arithmetic::div_mod::lemma_mod_bound(addr as int, vstd::arithmetic::power2::pow2(PABITS as nat) as int);
    }
    if usize::BITS > 48 {
        proof {
            vstd::bits::lemma_usize_pow2_no_overflow(PABITS as nat);
            vstd::bits::lemma_usize_shl_is_mul(1, PABITS);
            vstd::bits::lemma_usize_low_bits_mask_is_mod(addr, PABITS as nat);
        }
        let mask = (1usize << PABITS) - 1;
        addr & mask
    } else {
        proof {
            vstd::arithmetic::power2::lemma2_to64();
            vstd::arithmetic::power2::lemma_pow2_strictly_increases(32, 48);
            vstd::arithmetic::div_mod::lemma_small_mod(addr as nat, vstd::arithmetic::power2::pow2(PABITS as nat));
        }
        addr
    }
}

/// Taking the physical address twice changes nothing: the result is below
/// `2^PABITS` and is its own physical address.
pub proof fn lemma_to_phys_idempotent(addr: usize)
    ensures
        to_phys_spec(addr) < vstd::arithmetic::power2::pow2(PABITS as nat),
        (to_phys_spec(addr) as usize) as int == to_phys_spec(addr),
        to_phys_spec(to_phys_spec(addr) as usize) == to_phys_spec(addr),
{
    let m = vstd::arithmetic::power2::pow2(PABITS as nat) as int;
    vstd::arithmetic::power2::lemma_pow2_pos(PABITS as nat);
    vstd::arithmetic::div_mod::lemma_mod_bound(addr as int, m);
    vstd::arithmetic::div_mod::lemma_mod_twice(addr as int, m);
    assert(to_phys_spec(addr) <= addr) by {
        vstd::arithmetic::div_mod::lemma_mod_decreases(addr as nat, m as nat);
    }
}

/// Smallest timer count the timer is programmed with.
pub const MIN_TICKS: usize = 4;

/// The value programmed into the timer for an interval of `ticks`: at least
/// `MIN_TICKS`, rounded up to a multiple of 4 as the timer requires.
pub fn timer_init_value(ticks: usize) -> (v: usize)
    requires
        ticks + 3 <= usize::MAX,
    ensures
        v == crate::align::align_up_spec(if ticks >= MIN_TICKS { ticks as int } else { MIN_TICKS as int }, 4),
{
    let t = if ticks >= MIN_TICKS {
        ticks
    } else {
        MIN_TICKS
    };
    proof {
        vstd::arithmetic::power2::lemma2_to64();
        assert(4 == vstd::arithmetic::power2::pow2(2));
        assert(crate::percpu::is_pow2(4));
    }
    crate::percpu::align_up_pow2(t, 4)
}

/// The local-interrupt enable bits `lie` with bit `hwirq` set (`enable`)
/// or cleared.
pub open spec fn lie_update_spec(lie: usize, hwirq: usize, enable: bool) -> usize {
    if enable {
        lie | (1usize << hwirq)
    } else {
        lie & !(1usize << hwirq)
    }
}

/// Whether bit `hwirq` of the local-interrupt enable bits `lie` is set.
pub open spec fn lie_contains_spec(lie: usize, hwirq: usize) -> bool {
    lie & (1usize << hwirq) == (1usize << hwirq)
}

/// Enabling or disabling one local interrupt line makes it read back as
/// set or cleared, and leaves every other line as it was.
pub proof fn lemma_lie_update_one_line(lie: usize, hwirq: usize, enable: bool, other: usize)
    requires
        hwirq < 13,
        other < 13,
    ensures
        lie_contains_spec(lie_update_spec(lie, hwirq, enable), hwirq) == enable,
        other != hwirq ==> lie_contains_spec(lie_update_spec(lie, hwirq, enable), other) == lie_contains_spec(
            lie,
            other,
        ),
{
    assert(hwirq < 13 ==> (lie | (1usize << hwirq)) & (1usize << hwirq) == (1usize << hwirq)) by (bit_vector);
    assert(hwirq < 13 ==> (lie & !(1usize << hwirq)) & (1usize << hwirq) != (1usize << hwirq)) by (bit_vector);
    assert(hwirq < 13 && other < 13 && other != hwirq ==> (((lie | (1usize << hwirq)) & (1usize << other) == (1usize
        << other)) == (lie & (1usize << other) == (1usize << other)))) by (bit_vector);
    assert(hwirq < 13 && other < 13 && other != hwirq ==> (((lie & !(1usize << hwirq)) & (1usize << other) == (1usize
        << other)) == (lie & (1usize << other) == (1usize << other)))) by (bit_vector);
}

/// The local-interrupt enable bits with bit `hwirq` set (`enable`) or cleared.
pub fn lie_update(lie: usize, hwirq: usize, enable: bool) -> (r: usize)
    requires
        hwirq < 13,
    ensures
        enable ==> r == lie | (1usize << hwirq),
        !enable ==> r == lie & !(1usize << hwirq),
        r == lie_update_spec(lie, hwirq, enable),
{
    let mask = 1usize << hwirq;
    if enable {
        lie | mask
    } else {
        lie & !mask
    }
}

/// Whether bit `hwirq` of the local-interrupt enable bits is set.
pub fn lie_contains(lie: usize, hwirq: usize) -> (b: bool)
    requires
        hwirq < 13,
    ensures
        b == (lie & (1usize << hwirq) == (1usize << hwirq)),
        b == lie_contains_spec(lie, hwirq),
{
    let mask = 1usize << hwirq;
    lie & mask == mask
}

/// Why a data abort happened.
#[derive(Debug, Clone, Copy, PartialEq, Eq, Structural)]
pub enum PageFaultReason {
    Read,
    Write,
}

/// The reason a data abort reports in its syndrome: a write when the
/// write-not-read bit (6) is set and the cache-maintenance bit (8) is not.
pub fn data_abort_reason(iss: u64) -> (r: PageFaultReason)
    ensures
        r == (if iss & 0x40 != 0 && iss & 0x100 == 0 {
            PageFaultReason::Write
        } else {
            PageFaultReason::Read
        }),
{
    let wnr = (iss & (1u64 << 6u64)) != 0;
    let cm = (iss & (1u64 << 8u64)) != 0;
    assert(1u64 << 6u64 == 0x40u64 && 1u64 << 8u64 == 0x100u64) by (bit_vector);
    if wnr && !cm {
        PageFaultReason::Write
    } else {
        PageFaultReason::Read
    }
}

} // verus!
