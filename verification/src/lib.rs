//! Proof-of-work sealing with SHA3-256.
//!
//! A header is sealed by a nonce whose work, the SHA3-256 digest of the
//! difficulty, the header's pre-hash and the nonce, meets the difficulty. The
//! crate holds the target test ([`pow::is_valid_hash`]), the wire format of
//! the seal ([`codec`]), the work computation ([`pow::Compute`]) and the
//! engine that tells the difficulty, verifies seals and searches for them,
//! with or without a signal that ends the search early
//! ([`pow::Sha3Algorithm`]).
//!
//! Numbers and digests are the crate's own plain types ([`uint::U256`],
//! [`hash::H256`]); `primitive_types` multiplies, `sha3` hashes and `rand`
//! draws the nonces.

pub mod bytes;
pub mod cancel;
pub mod codec;
pub mod hash;
pub mod pow;
pub mod rng;
pub mod uint;
