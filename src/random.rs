//! Chance, from bracket-lib's random number generator.
use vstd::prelude::*;
use bracket_lib::prelude::RandomNumberGenerator;

verus! {

/// bracket-lib's random number generator, opaque.
#[verifier::external_type_specification]
#[verifier::external_body]
pub struct ExRandomNumberGenerator(RandomNumberGenerator);

/// Relies on RandomNumberGenerator::new: a generator seeded from the
/// system's entropy. Nothing is known of what it will draw.
pub assume_specification[ RandomNumberGenerator::new ]() -> RandomNumberGenerator;

/// Relies on RandomNumberGenerator::range, which draws from `min` included
/// to `max` excluded, and panics when `min` is not below `max`.
#[verifier::external_body]
pub(crate) fn random_below(rng: &mut RandomNumberGenerator, bound: u32) -> (r: u32)
    requires
        0 < bound,
    ensures
        r < bound,
{
    rng.range(0u32, bound)
}

} // verus!
