//! Trusted declarations for the seedable pseudo-random generator of the
//! `rand` crate. Nothing is ever promised of a drawn value: every contract
//! downstream holds for every possible outcome.

use vstd::prelude::*;

verus! {

#[verifier::external_type_specification]
#[verifier::external_body]
pub struct ExStdRng(rand::rngs::StdRng);

/// Relies on rand_core::Rng::next_u64 (through rand's re-export): advances
/// the generator and returns its next word. No promise about the value.
#[verifier::external_body]
pub(crate) fn rng_next(rng: &mut rand::rngs::StdRng) -> u64 {
    rand::Rng::next_u64(rng)
}

} // verus!
