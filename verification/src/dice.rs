//! The random source that new pieces are drawn from.

use vstd::prelude::*;
use rand::rngs::StdRng;
use rand::Rng;

verus! {

/// The generator of the `rand` crate that the game draws from. Nothing is
/// known of its state.
#[verifier::external_type_specification]
#[verifier::external_body]
pub struct ExStdRng(StdRng);

/// Draws a number below `n` with `rand::Rng::gen_range` on the range
/// `0..n`, which samples that range uniformly and panics when it is empty.
/// Trusted: the number drawn is less than `n`. Which one it is depends on the
/// generator's state.
#[verifier::external_body]
pub(crate) fn roll(rng: &mut StdRng, n: u8) -> (r: u8)
    requires
        n > 0,
    ensures
        r < n,
{
    rng.gen_range(0..n)
}

} // verus!
