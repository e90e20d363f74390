//! 256-bit unsigned integers, held as four 64-bit words.

use crate::bytes::{
    be_value, le_bytes, le_value, lemma_le_bytes_concat, lemma_le_value_concat,
    lemma_pow256_values, pow256, push_u64_le, read_u64_le,
};
use vstd::prelude::*;
use vstd::std_specs::cmp::PartialEqSpecImpl;
use vstd::std_specs::convert::FromSpecImpl;

verus! {

/// Two to the power 256: one more than the largest [`U256`].
pub open spec fn two_pow_256() -> nat {
    0x1_0000_0000_0000_0000_0000_0000_0000_0000_0000_0000_0000_0000_0000_0000_0000_0000nat
}

/// The number that four 64-bit words spell, the first word the least significant.
pub open spec fn words_value(words: Seq<u64>) -> nat {
    (words[0] + 0x1_0000_0000_0000_0000int * (words[1] + 0x1_0000_0000_0000_0000int * (words[2]
        + 0x1_0000_0000_0000_0000int * words[3]))) as nat
}

/// An unsigned 256-bit integer. The four words are its base-2^64 digits, least
/// significant first; every combination of words is a number.
#[derive(Clone, Copy, Debug, Eq)]
pub struct U256(pub [u64; 4]);

/// The work target: the larger, the fewer digests meet it.
pub type Difficulty = U256;

impl View for U256 {
    type V = nat;

    open spec fn view(&self) -> nat {
        words_value(self.0@)
    }
}

impl PartialEq for U256 {
    fn eq(&self, other: &U256) -> (r: bool) {
        let same = self.0[0] == other.0[0] && self.0[1] == other.0[1] && self.0[2] == other.0[2]
            && self.0[3] == other.0[3];
        proof {
            if same {
                assert(self.0 =~= other.0);
            }
        }
        same
    }
}

impl PartialEqSpecImpl for U256 {
    open spec fn obeys_eq_spec() -> bool {
        true
    }

    open spec fn eq_spec(&self, other: &U256) -> bool {
        *self == *other
    }
}

impl From<u64> for U256 {
    /// The number that a 64-bit word is.
    fn from(value: u64) -> (r: U256)
        ensures
            r@ == value,
    {
        U256([value, 0, 0, 0])
    }
}

impl FromSpecImpl<u64> for U256 {
    open spec fn obeys_from_spec() -> bool {
        true
    }

    open spec fn from_spec(value: u64) -> U256 {
        U256([value, 0, 0, 0])
    }
}

impl U256 {
    /// Every value is below two to the 256.
    pub proof fn lemma_view_bound(a: U256)
        ensures
            a@ < two_pow_256(),
    {
    }

    /// A number has one representation: equal values mean equal words.
    pub proof fn lemma_view_injective(a: U256, b: U256)
        ensures
            (a@ == b@) <==> (a == b),
    {
        if a@ == b@ {
            assert(a.0 =~= b.0);
        }
    }

    /// Appends the thirty-two bytes of the number, least significant first.
    pub fn encode_to(&self, out: &mut Vec<u8>)
        ensures
            final(out)@ == old(out)@ + le_bytes(self@, 32),
    {
        push_u64_le(out, self.0[0]);
        push_u64_le(out, self.0[1]);
        push_u64_le(out, self.0[2]);
        push_u64_le(out, self.0[3]);
        proof {
            let w0 = self.0[0] as nat;
            let w1 = self.0[1] as nat;
            let w2 = self.0[2] as nat;
            let w3 = self.0[3] as nat;
            lemma_pow256_values();
            lemma_le_bytes_concat(w2, w3, 8, 8);
            lemma_le_bytes_concat(w1, w2 + pow256(8) * w3, 8, 16);
            lemma_le_bytes_concat(w0, w1 + pow256(8) * (w2 + pow256(8) * w3), 8, 24);
        }
    }

    /// Reads the number whose thirty-two bytes, least significant first, start at `at`.
    pub(crate) fn decode_at(bytes: &[u8], at: usize) -> (r: U256)
        requires
            at + 32 <= bytes@.len(),
        ensures
            r@ == le_value(bytes@.subrange(at as int, at + 32)),
    {
        let len = bytes.len();
        let w0 = read_u64_le(bytes, at);
        let w1 = read_u64_le(bytes, at + 8);
        let w2 = read_u64_le(bytes, at + 16);
        let w3 = read_u64_le(bytes, at + 24);
        proof {
            let b0 = bytes@.subrange(at as int, at + 8);
            let b1 = bytes@.subrange(at + 8, at + 16);
            let b2 = bytes@.subrange(at + 16, at + 24);
            let b3 = bytes@.subrange(at + 24, at + 32);
            lemma_pow256_values();
            lemma_le_value_concat(b2, b3);
            lemma_le_value_concat(b1, b2 + b3);
            lemma_le_value_concat(b0, b1 + (b2 + b3));
            assert(b0 + (b1 + (b2 + b3)) =~= bytes@.subrange(at as int, at + 32));
        }
        U256([w0, w1, w2, w3])
    }
}

/// Calls `primitive_types::U256::from_big_endian` on the thirty-two bytes. The
/// result is the number that they spell with the first byte the most significant.
#[verifier::external_body]
pub(crate) fn from_big_endian(bytes: &[u8; 32]) -> (r: U256)
    ensures
        r@ == be_value(bytes@),
{
    U256(primitive_types::U256::from_big_endian(&bytes[..]).0)
}

/// Calls `primitive_types::U256::overflowing_mul`. The first part of the result
/// is the product reduced modulo two to the 256, the second says whether the
/// product itself reaches two to the 256.
#[verifier::external_body]
pub(crate) fn overflowing_mul(a: U256, b: U256) -> (r: (U256, bool))
    ensures
        r.0@ == (a@ * b@) % two_pow_256(),
        r.1 == (a@ * b@ >= two_pow_256()),
{
    let (product, overflow) = primitive_types::U256(a.0).overflowing_mul(primitive_types::U256(b.0));
    (U256(product.0), overflow)
}

} // verus!
