//! The random numbers that the library draws.

use rand::Rng;
use rand::rngs::StdRng;
use vstd::prelude::*;

verus! {

/// The random number generator that the library draws from.
#[verifier::external_type_specification]
#[verifier::external_body]
pub struct ExStdRng(StdRng);

/// Draws a number from `low` to `high`, both included. The contract claims of
/// `rand::Rng::gen_range` with an inclusive range of integers that the number drawn lies
/// within the range, which is all that holds of every draw; `low` must not exceed `high`,
/// as the call panics on an empty range.
#[verifier::external_body]
pub(crate) fn draw_between(rng: &mut StdRng, low: i64, high: i64) -> (n: i64)
    requires
        low <= high,
    ensures
        low <= n <= high,
{
    rng.gen_range(low..=high)
}

} // verus!
