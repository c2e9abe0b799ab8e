//! The random source of the magic-number search.

use vstd::prelude::*;
use rand::{Rng, SeedableRng};
use rand::rngs::OsRng;
use rand_chacha::ChaChaRng;

verus! {

/// The ChaCha generator with 20 rounds of the `rand_chacha` crate, as an
/// opaque value.
#[verifier::external_type_specification]
#[verifier::external_body]
pub struct ExChaCha20Rng(rand_chacha::ChaCha20Rng);

/// `SeedableRng::seed_from_u64` of `ChaCha20Rng`: a generator whose stream
/// the seed fixes. Nothing is claimed of the generator.
#[verifier::external_body]
pub(crate) fn seeded_rng(seed: u64) -> (rng: ChaChaRng) {
    ChaChaRng::seed_from_u64(seed)
}

/// `SeedableRng::from_rng` of `ChaCha20Rng` on `OsRng`: a generator seeded by
/// the operating system, or `None` where the system hands out no randomness.
/// Nothing is claimed of the outcome.
#[verifier::external_body]
pub(crate) fn entropy_rng() -> (rng: Option<ChaChaRng>) {
    ChaChaRng::from_rng(OsRng).ok()
}

/// `Rng::gen::<u64>` of `ChaCha20Rng`: the next 64 bits of the stream. Nothing
/// is claimed of the value.
#[verifier::external_body]
pub(crate) fn draw(rng: &mut ChaChaRng) -> (number: u64) {
    rng.gen::<u64>()
}

} // verus!
