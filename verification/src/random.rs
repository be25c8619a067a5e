use vstd::prelude::*;
use rand::Rng;

verus! {

/// Draws a number below `bound` from the thread's random number generator.
///
/// Calls `rand::rng` and `Rng::random_range` on the half-open range from 0
/// to `bound`. `random_range` panics on an empty range, so `bound` is not 0;
/// what it returns lies in the range, and nothing more is known of it.
#[verifier::external_body]
pub(crate) fn random_below(bound: u32) -> (n: u32)
    requires
        bound > 0,
    ensures
        n < bound,
{
    rand::rng().random_range(0..bound)
}

/// A number below `bound` drawn at random, if there is one.
pub fn below(bound: u32) -> (n: Option<u32>)
    ensures
        n is Some <==> bound > 0,
        n is Some ==> n->0 < bound,
{
    if bound == 0 {
        None
    } else {
        Some(random_below(bound))
    }
}

} // verus!
