//! The random draws that the search makes, each one call into the `rand` crate.
//!
//! Nothing here is proved: the contracts are what `rand` documents of the
//! calls, and they hold of every outcome. No contract says which outcome a
//! call has.

use rand::rngs::StdRng;
use rand::Rng;
use vstd::prelude::*;

verus! {

/// `rand::rngs::StdRng`, the generator that every draw is made from. Nothing
/// is known of what it holds.
#[verifier::external_type_specification]
#[verifier::external_body]
pub struct ExStdRng(rand::rngs::StdRng);

/// `Rng::gen_range` on the integers from zero up to, and without, `bound`.
/// The call panics on an empty range, so `bound` must be positive; the value
/// drawn lies in the range.
#[verifier::external_body]
pub(crate) fn draw_below(rng: &mut StdRng, bound: u64) -> (r: u64)
    requires
        bound > 0,
    ensures
        r < bound,
{
    rng.gen_range(0..bound)
}

/// `Rng::gen` for a `bool`: either value may come back.
#[verifier::external_body]
pub(crate) fn draw_bool(rng: &mut StdRng) -> (r: bool) {
    rng.gen::<bool>()
}

/// `Rng::gen_ratio`: `true` with a chance of `numerator` in `denominator`.
/// The call panics on a zero denominator and on a numerator above the
/// denominator. With the two equal it is always `true`, with a zero
/// numerator always `false`.
#[verifier::external_body]
pub(crate) fn draw_ratio(rng: &mut StdRng, numerator: u32, denominator: u32) -> (r: bool)
    requires
        0 < denominator,
        numerator <= denominator,
    ensures
        numerator == denominator ==> r,
        numerator == 0 ==> !r,
{
    rng.gen_ratio(numerator, denominator)
}

} // verus!
