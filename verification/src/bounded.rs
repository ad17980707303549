//! The fixed-capacity vector of the `heapless` crate, as the library's types use it.
use vstd::prelude::*;

verus! {

/// `heapless::Vec<T, N>`: a vector with inline storage for at most `N` items.
#[verifier::external_type_specification]
#[verifier::external_body]
#[verifier::reject_recursive_types(T)]
pub struct ExHeaplessVec<T, const N: usize>(heapless::Vec<T, N>);

} // verus!
