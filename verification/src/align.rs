//! Address alignment helpers backed by the `num_align` crate.
use num_align::NumAlign;
use vstd::prelude::*;

verus! {

/// `x` rounded down to a multiple of `align`.
pub open spec fn align_down_spec(x: int, align: int) -> int {
    x - x % align
}

/// `x` rounded up to a multiple of `align`.
pub open spec fn align_up_spec(x: int, align: int) -> int {
    if x % align == 0 {
        x
    } else {
        x + align - x % align
    }
}

/// Calls `NumAlign::align_down` of `num_align` on a `usize`: the value is returned
/// unchanged when `align` divides it, and otherwise `x - x % align`.
/// `align` must not be zero (the crate computes `x % align`).
#[verifier::external_body]
pub(crate) fn align_down(x: usize, align: usize) -> (r: usize)
    requires
        align > 0,
    ensures
        r == align_down_spec(x as int, align as int),
{
    x.align_down(align)
}

/// Whether `NumAlign::align_up` can round `x` up to `align` on a `usize`: a
/// value that `align` divides is returned as it is, and any other is
/// computed as `x + align - x % align`, whose first sum must fit.
pub open spec fn align_up_ok(x: int, align: int) -> bool {
    x % align == 0 || x + align <= usize::MAX
}

/// Calls `NumAlign::align_up` of `num_align` on a `usize`: the value is returned
/// unchanged when `align` divides it, and otherwise `x + align - x % align`.
/// `align` must not be zero, and `x + align` must fit in a `usize` when
/// `align` does not divide `x` (the crate's addition would overflow
/// otherwise).
#[verifier::external_body]
pub(crate) fn align_up(x: usize, align: usize) -> (r: usize)
    requires
        align > 0,
        align_up_ok(x as int, align as int),
    ensures
        r == align_up_spec(x as int, align as int),
{
    x.align_up(align)
}

/// Facts about rounding that the memory layout code relies on.
pub proof fn lemma_align_bounds(x: int, align: int)
    requires
        x >= 0,
        align > 0,
    ensures
        0 <= align_down_spec(x, align) <= x,
        x <= align_up_spec(x, align) < x + align,
        align_down_spec(x, align) % align == 0,
        align_up_spec(x, align) % align == 0,
{
    vstd::arithmetic::div_mod::lemma_fundamental_div_mod(x, align);
    vstd::arithmetic::div_mod::lemma_mod_bound(x, align);
    vstd::arithmetic::div_mod::lemma_mod_multiples_basic(x / align, align);
    vstd::arithmetic::div_mod::lemma_mod_multiples_basic(x / align + 1, align);
    assert(align * (x / align) == (x / align) * align) by (nonlinear_arith);
    assert((x / align + 1) * align == (x / align) * align + align) by (nonlinear_arith);
}

} // verus!
