//! Injected randomness: a seedable generator handed in by the caller, so
//! that runs are reproducible given a fixed seed.

use vstd::prelude::*;

verus! {

#[verifier::external_type_specification]
#[verifier::external_body]
pub struct ExStdRng(rand::rngs::StdRng);

/// Relies on `rand::Rng::gen_range` over `0..bound`: the draw always lies
/// below `bound`; nothing more can be promised of a random value.
#[verifier::external_body]
pub fn rng_below(rng: &mut rand::rngs::StdRng, bound: usize) -> (r: usize)
    requires
        bound >= 1,
    ensures
        r < bound,
{
    rand::Rng::gen_range(rng, 0..bound)
}

/// Relies on `rand::Rng::gen` at type `bool`: a coin flip; nothing can be
/// promised of its outcome.
#[verifier::external_body]
pub fn rng_flip(rng: &mut rand::rngs::StdRng) -> bool {
    rand::Rng::gen::<bool>(rng)
}

} // verus!
