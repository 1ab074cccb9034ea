use vstd::prelude::*;

use rand::Rng;
use rand::SeedableRng;
use rand::rngs::StdRng;

verus! {

#[verifier::external_type_specification]
#[verifier::external_body]
pub struct ExStdRng(StdRng);

/// Relies on rand::rngs::StdRng::from_entropy (SeedableRng): a generator
/// seeded from the operating system's entropy source. Nothing is promised
/// of the values it will produce.
#[verifier::external_body]
pub(crate) fn rng_from_entropy() -> StdRng {
    StdRng::from_entropy()
}

/// Relies on rand::rngs::StdRng::seed_from_u64 (SeedableRng): a generator
/// deterministically derived from the given seed word. Nothing is promised
/// of the values it will produce.
#[verifier::external_body]
pub(crate) fn rng_from_seed(seed: u64) -> StdRng {
    StdRng::seed_from_u64(seed)
}

/// Relies on rand::Rng::gen_range over the half-open range `0..bound`: it
/// returns a value inside that range and panics only when the range is
/// empty, which the precondition rules out.
#[verifier::external_body]
pub(crate) fn rng_below(rng: &mut StdRng, bound: i32) -> (r: i32)
    requires
        0 < bound,
    ensures
        0 <= r < bound,
{
    rng.gen_range(0..bound)
}

} // verus!
