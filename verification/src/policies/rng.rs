//! Random choices used by the randomised policies.

use rand::Rng;
use vstd::prelude::*;

verus! {

/// Calls `rand::Rng::gen_range(0..n)` on the thread-local generator.
/// The contract claims only that the result lies in `0..n`, which is what
/// `gen_range` documents for a non-empty range; which value comes out is
/// left open because it depends on chance.
#[verifier::external_body]
pub(crate) fn random_below(n: usize) -> (r: usize)
    requires
        n > 0,
    ensures
        r < n,
{
    rand::thread_rng().gen_range(0..n)
}

/// Calls `rand::random::<usize>()`. Any `usize` may come back, so nothing
/// is stated of the result.
#[verifier::external_body]
pub(crate) fn random_usize() -> usize {
    rand::random::<usize>()
}

/// Calls `rand::random::<i64>()`. Any `i64` may come back, so nothing is
/// stated of the result.
#[verifier::external_body]
pub(crate) fn random_i64() -> i64 {
    rand::random::<i64>()
}

} // verus!
