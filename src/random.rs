//! Random draws, taken from the `rand` crate's thread-local generator.
use vstd::prelude::*;
use rand::Rng;

verus! {

/// Relies on rand's `Rng::random_range` over `0..n`, which yields a value
/// of the half-open range and panics only when it is empty.
#[verifier::external_body]
pub(crate) fn random_below(n: i32) -> (r: i32)
    requires
        n > 0,
    ensures
        0 <= r < n,
{
    rand::rng().random_range(0..n)
}

/// Relies on rand's `Rng::random_ratio`: true with chance
/// `numerator / denominator`, always false for a zero numerator and always
/// true when numerator and denominator are equal; it panics on a zero
/// denominator or a numerator above it.
#[verifier::external_body]
pub(crate) fn random_ratio(numerator: u32, denominator: u32) -> (r: bool)
    requires
        0 < denominator,
        numerator <= denominator,
    ensures
        numerator == 0 ==> !r,
        numerator == denominator ==> r,
{
    rand::rng().random_ratio(numerator, denominator)
}

} // verus!
