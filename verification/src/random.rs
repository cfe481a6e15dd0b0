//! The random source of mining, and the one draw that the nonce search makes
//! from it.
//!
//! Nothing here is proved: the generator is rand's, and what is said of the
//! draw is taken on trust from rand.

use rand::rngs::StdRng;
use rand::Rng;
use vstd::prelude::*;

verus! {

/// rand's `StdRng`, the cryptographically secure generator that mining draws
/// its first nonce from and hands on to the proof backend. Its state is
/// opaque here.
#[verifier::external_type_specification]
#[verifier::external_body]
pub struct ExStdRng(StdRng);

/// Calls rand's `Rng::gen_range` on the half-open range from zero to
/// `bound`. That call panics on an empty range, so the bound must be
/// positive. All that is claimed of the value drawn is that it lies in the
/// range: it is below the bound.
#[verifier::external_body]
pub(crate) fn draw_below(rng: &mut StdRng, bound: u32) -> (drawn: u32)
    requires
        bound > 0,
    ensures
        drawn < bound,
{
    rng.gen_range(0..bound)
}

} // verus!
