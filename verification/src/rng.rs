use vstd::prelude::*;
use rand::Rng;
use rand::SeedableRng;
use rand::rngs::StdRng;

verus! {

/// The standard random number generator of the rand crate, opaque to
/// verification: nothing is assumed about the values it produces.
#[verifier::external_type_specification]
#[verifier::external_body]
pub struct ExStdRng(StdRng);

/// Relies on rand's `SeedableRng::seed_from_u64` to construct a `StdRng`
/// from a 64-bit seed.
#[verifier::external_body]
pub fn new_rng(seed: u64) -> StdRng {
    StdRng::seed_from_u64(seed)
}

/// Relies on rand's `Rng::random::<u8>`; any byte may come back.
#[verifier::external_body]
pub fn random_byte(rng: &mut StdRng) -> u8 {
    rng.random()
}

/// Relies on rand's `Rng::random_range` over an inclusive integer range:
/// it panics only on an empty range, and returns a value inside the range.
#[verifier::external_body]
pub fn random_in_range(rng: &mut StdRng, lo: usize, hi: usize) -> (r: usize)
    requires
        lo <= hi,
    ensures
        lo <= r <= hi,
{
    rng.random_range(lo..=hi)
}

} // verus!
