//! The crate's only source of randomness: thin trusted wrappers around
//! `rand`. Nothing is assumed about the distribution of the samples, only
//! that each one lies in the requested half-open range.

use vstd::prelude::*;

use rand::Rng;

verus! {

/// Relies on `rand::Rng::gen_range` on `rand::thread_rng`: the sample lies in
/// the half-open range `lo..hi`; the call panics only on an empty range,
/// which the precondition rules out.
#[verifier::external_body]
pub(crate) fn random_i64(lo: i64, hi: i64) -> (r: i64)
    requires
        lo < hi,
    ensures
        lo <= r < hi,
{
    rand::thread_rng().gen_range(lo..hi)
}

/// Relies on `rand::Rng::gen_range` on `rand::thread_rng`, instantiated at
/// `usize` to draw an index: the sample lies below `n`; the call panics only
/// on an empty range, which the precondition rules out.
#[verifier::external_body]
pub(crate) fn random_index(n: usize) -> (r: usize)
    requires
        0 < n,
    ensures
        r < n,
{
    rand::thread_rng().gen_range(0..n)
}

} // verus!
