//! The two draws the world takes from the `rand` crate. Their outcomes are
//! not part of any proof: callers hold for every value that may come back.

use rand::Rng;
use vstd::prelude::*;

verus! {

/// Calls `rand::thread_rng().gen::<bool>()`: one coin from the thread-local
/// generator. Nothing is claimed of the outcome.
#[verifier::external_body]
pub(crate) fn coin_flip() -> bool {
    rand::thread_rng().gen()
}

/// Calls `rand::thread_rng().gen_range(0..bound)`. The claim is the one
/// `gen_range` documents for a half-open range: the value lies in it.
/// `gen_range` panics on an empty range, which `bound > 0` rules out.
#[verifier::external_body]
pub(crate) fn pick_below(bound: usize) -> (pick: usize)
    requires
        bound > 0,
    ensures
        pick < bound,
{
    rand::thread_rng().gen_range(0..bound)
}

} // verus!
