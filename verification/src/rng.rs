//! A seeded generator as the source of randomness for key setup.
use vstd::prelude::*;
use crate::interfaces::RandomSource;

verus! {

/// `rand::rngs::StdRng`, carried as an opaque value.
#[verifier::external_type_specification]
#[verifier::external_body]
pub struct ExStdRng(rand::rngs::StdRng);

/// Calls `SeedableRng::seed_from_u64` on `rand::rngs::StdRng`. Nothing is
/// claimed of the generator that comes back.
#[verifier::external_body]
fn std_rng_seed_from_u64(seed: u64) -> (rng: rand::rngs::StdRng) {
    <rand::rngs::StdRng as rand::SeedableRng>::seed_from_u64(seed)
}

/// Calls `Rng::next_u64` on `rand::rngs::StdRng`. Nothing is claimed of the
/// word that comes back.
#[verifier::external_body]
fn std_rng_next_u64(rng: &mut rand::rngs::StdRng) -> (word: u64) {
    rand::Rng::next_u64(rng)
}

/// A pseudo-random generator started from a 64-bit seed.
pub struct SeededRng {
    inner: rand::rngs::StdRng,
}

impl SeededRng {
    /// The generator for `seed`.
    pub fn seed_from_u64(seed: u64) -> (rng: Self) {
        SeededRng { inner: std_rng_seed_from_u64(seed) }
    }
}

impl RandomSource for SeededRng {
    fn next_u64(&mut self) -> u64 {
        std_rng_next_u64(&mut self.inner)
    }
}

} // verus!
