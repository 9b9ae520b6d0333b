//! Random draws. The generator is the `rand` crate's; what this module adds is
//! the one fact the rules rely on: a draw from a range lies in that range.

use rand::rngs::StdRng;
use vstd::prelude::*;

verus! {

/// The random number generator of the `rand` crate that the systems draw from.
/// Nothing is known of its state.
#[verifier::external_type_specification]
#[verifier::external_body]
pub struct ExStdRng(rand::rngs::StdRng);

/// Draws a whole number from `low` up to, but not including, `high`.
///
/// Calls `rand::Rng::random_range` with the range `low..high`. That function
/// panics on an empty range, which the precondition rules out, and returns a
/// value of the range. Which value is left open.
#[verifier::external_body]
pub(crate) fn random_range(rng: &mut StdRng, low: i64, high: i64) -> (r: i64)
    requires
        low < high,
    ensures
        low <= r < high,
{
    rand::Rng::random_range(rng, low..high)
}

} // verus!
