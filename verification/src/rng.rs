//! The source of nonces: a small generator seeded from the operating system.
//!
//! Nothing is promised of what these calls return: a nonce is any thirty-two
//! bytes, and whatever the search states holds for every draw.

use crate::hash::H256;
use vstd::prelude::*;

verus! {

/// `rand::rngs::SmallRng`, the generator that draws the nonces.
#[verifier::external_type_specification]
#[verifier::external_body]
pub struct ExSmallRng(rand::rngs::SmallRng);

/// `rand::Error`, what a generator reports when it cannot deliver.
#[verifier::external_type_specification]
#[verifier::external_body]
pub struct ExRandError(rand::Error);

/// Calls `SmallRng::from_rng` (of `rand::SeedableRng`) on `rand::rngs::OsRng`:
/// the seed is asked of the operating system, and the call fails when the
/// operating system does not deliver it. Nothing is claimed of the generator.
#[verifier::external_body]
pub(crate) fn small_rng_from_os() -> Result<rand::rngs::SmallRng, rand::Error> {
    <rand::rngs::SmallRng as rand::SeedableRng>::from_rng(rand::rngs::OsRng)
}

/// Calls `primitive_types::H256::random_using`, which draws thirty-two bytes
/// from `rng`.
#[verifier::external_body]
pub(crate) fn random_hash(rng: &mut rand::rngs::SmallRng) -> H256 {
    H256(primitive_types::H256::random_using(rng).0)
}

/// Formats a `rand::Error` with its `Debug` impl.
#[verifier::external_body]
pub(crate) fn describe(error: &rand::Error) -> String {
    format!("{:?}", error)
}

} // verus!
