//! Makes the fixed-capacity vector of `heapless` known to the verifier.
//! Its contents are named, per element type and capacity, where it is used.
use vstd::prelude::*;

verus! {

#[verifier::external_type_specification]
#[verifier::external_body]
#[verifier::reject_recursive_types(T)]
pub struct ExHeaplessVec<T, const N: usize>(heapless::Vec<T, N>);

} // verus!
