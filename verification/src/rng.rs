//! Random draws used by the game logic, from the thread-local generator of `rand`.
use vstd::prelude::*;

use rand::Rng;

verus! {

/// Uniformly random number in `0..bound`.
///
/// Calls `rand::thread_rng().gen_range(0..bound)`; the contract only states
/// that the result lies in the requested range (the range may not be empty,
/// on which `gen_range` panics).
#[verifier::external_body]
pub(crate) fn random_below(bound: u32) -> (r: u32)
    requires
        bound > 0,
    ensures
        r < bound,
{
    rand::thread_rng().gen_range(0..bound)
}

/// A uniformly random `u32`.
///
/// Calls `rand::random::<u32>()`; every value may come back, so nothing is
/// stated of the result.
#[verifier::external_body]
pub(crate) fn random_u32() -> (r: u32)
{
    rand::random::<u32>()
}

/// `true` with probability `numerator / denominator`.
///
/// Calls `rand::thread_rng().gen_ratio(numerator, denominator)`, which panics
/// unless `0 < denominator` and `numerator <= denominator`. Its source returns
/// `false` for a numerator of zero and `true` when numerator and denominator
/// are equal; that is all the contract states.
#[verifier::external_body]
pub(crate) fn random_ratio(numerator: u32, denominator: u32) -> (r: bool)
    requires
        0 < denominator,
        numerator <= denominator,
    ensures
        numerator == 0 ==> !r,
        numerator == denominator ==> r,
{
    rand::thread_rng().gen_ratio(numerator, denominator)
}

} // verus!
