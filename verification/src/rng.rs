//! The library's only source of randomness: thin trusted wrappers around the
//! `rand` crate's thread-local generator. Nothing is assumed of a drawn value
//! beyond its documented range.

use vstd::prelude::*;

verus! {

#[verifier::external_type_specification]
#[verifier::external_body]
pub struct ExThreadRng(rand::rngs::ThreadRng);

/// Relies on `rand::thread_rng`: hands out the lazily initialised
/// thread-local generator.
#[verifier::external_body]
pub(crate) fn fresh_rng() -> rand::rngs::ThreadRng {
    rand::thread_rng()
}

/// Relies on `rand::Rng::gen_range` over `0..n`: returns a uniformly drawn
/// value of that range, which is non-empty by the precondition.
#[verifier::external_body]
pub(crate) fn random_below(rng: &mut rand::rngs::ThreadRng, n: usize) -> (r: usize)
    requires
        n > 0,
    ensures
        r < n,
{
    rand::Rng::gen_range(rng, 0..n)
}

/// Relies on `rand::Rng::gen_range` over `0..=255`: returns one random byte;
/// every byte value is possible, so nothing more is assumed.
#[verifier::external_body]
pub(crate) fn random_byte(rng: &mut rand::rngs::ThreadRng) -> u8 {
    rand::Rng::gen_range(rng, 0..=255u8)
}

} // verus!
