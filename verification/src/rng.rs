//! The process-wide random source, behind one trusted wrapper. Everything
//! that consumes a random number is verified for every value the contract
//! admits, so no determinism is assumed of the source.
use vstd::prelude::*;

verus! {

/// Relies on rand::random_range: a sample from the half-open range
/// `lo..hi`, drawn from the thread-local generator. It panics only on an
/// empty range, which `requires` rules out. Nothing more is assumed: the
/// sample may be any value of the range on any call.
#[verifier::external_body]
pub(crate) fn random_in_range(lo: u64, hi: u64) -> (r: u64)
    requires
        lo < hi,
    ensures
        lo <= r < hi,
{
    rand::random_range(lo..hi)
}

} // verus!
