//! 256-bit digests and the SHA3-256 function.

use vstd::prelude::*;
use vstd::std_specs::cmp::PartialEqSpecImpl;

verus! {

/// A 256-bit digest: thirty-two bytes with no further structure.
#[derive(Clone, Copy, Debug, Eq)]
pub struct H256(pub [u8; 32]);

impl View for H256 {
    type V = Seq<u8>;

    open spec fn view(&self) -> Seq<u8> {
        self.0@
    }
}

impl PartialEq for H256 {
    /// Two digests are equal when all thirty-two bytes agree.
    fn eq(&self, other: &H256) -> (r: bool) {
        let mut i: usize = 0;
        while i < 32
            invariant
                i <= 32,
                forall|j: int| 0 <= j < i ==> self.0[j] == other.0[j],
            decreases 32 - i,
        {
            if self.0[i] != other.0[i] {
                return false;
            }
            i += 1;
        }
        assert(self.0 =~= other.0);
        true
    }
}

impl PartialEqSpecImpl for H256 {
    open spec fn obeys_eq_spec() -> bool {
        true
    }

    open spec fn eq_spec(&self, other: &H256) -> bool {
        *self == *other
    }
}

/// The SHA3-256 digest of a byte string: thirty-two bytes, a function of the
/// string alone.
pub uninterp spec fn sha3_256(data: Seq<u8>) -> [u8; 32];

/// Calls `sha3::Sha3_256::digest` (of the `Digest` trait) on `data`. The result
/// is the digest that [`sha3_256`] names.
#[verifier::external_body]
pub(crate) fn sha3_256_digest(data: &[u8]) -> (digest: H256)
    ensures
        digest.0 == sha3_256(data@),
{
    H256(<sha3::Sha3_256 as sha3::Digest>::digest(data).into())
}

impl H256 {
    /// A digest is determined by its bytes: equal views mean equal digests.
    pub proof fn lemma_view_injective(a: H256, b: H256)
        ensures
            (a@ == b@) <==> (a == b),
    {
        if a@ == b@ {
            assert(a.0 =~= b.0);
        }
    }

    /// Appends the thirty-two bytes as they are.
    pub fn encode_to(&self, out: &mut Vec<u8>)
        ensures
            final(out)@ == old(out)@ + self@,
    {
        let ghost start = out@;
        let mut i: usize = 0;
        while i < 32
            invariant
                i <= 32,
                out@ == start + self@.subrange(0, i as int),
            decreases 32 - i,
        {
            out.push(self.0[i]);
            i += 1;
        }
    }

    /// Copies the thirty-two bytes that start at `at`.
    pub(crate) fn decode_at(bytes: &[u8], at: usize) -> (r: H256)
        requires
            at + 32 <= bytes@.len(),
        ensures
            r@ == bytes@.subrange(at as int, at + 32),
    {
        let len = bytes.len();
        let mut copy = [0u8; 32];
        let mut i: usize = 0;
        while i < 32
            invariant
                i <= 32,
                len == bytes@.len(),
                at + 32 <= len,
                forall|j: int| 0 <= j < i ==> copy@[j] == bytes@[at + j],
            decreases 32 - i,
        {
            copy[i] = bytes[at + i];
            i += 1;
        }
        H256(copy)
    }
}

} // verus!
