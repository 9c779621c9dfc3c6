//! The source of random bytes.
//!
//! The machine owns a seeded generator, so that a run can be repeated: two
//! machines built from the same seed draw the same bytes. Nothing in this
//! module is proved. It is the boundary to the `rand` crate, and the verified
//! code uses a drawn byte as an arbitrary one.

use vstd::prelude::*;
use rand::rngs::StdRng;
use rand::Rng;
use rand::SeedableRng;

verus! {

/// `rand::rngs::StdRng`, the generator of the `rand` crate. Its state is
/// opaque here.
#[verifier::external_type_specification]
#[verifier::external_body]
pub struct ExStdRng(StdRng);

/// Calls `SeedableRng::seed_from_u64` on `StdRng`: a generator whose state is
/// derived from `seed`. Nothing is claimed of the generator.
#[verifier::external_body]
pub(crate) fn seeded(seed: u64) -> StdRng {
    StdRng::seed_from_u64(seed)
}

/// Calls `Rng::gen::<u8>` on the generator: advances it and gives the next
/// byte. Nothing is claimed of the byte. The only claim is that the call
/// returns: the generator computes its output from its own state and cannot
/// fail.
#[verifier::external_body]
pub(crate) fn next_byte(rng: &mut StdRng) -> u8
    no_unwind
{
    rng.gen::<u8>()
}

} // verus!
