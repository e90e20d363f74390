//! The wire format of the two records: three fixed-width fields, ninety-six
//! bytes. The difficulty comes first, least significant byte first; the two
//! digests follow as they are.

use crate::bytes::{
    le_bytes, le_value, lemma_le_bytes_len, lemma_le_bytes_of_le_value, lemma_le_value_bound,
    lemma_le_value_of_le_bytes, lemma_pow256_values,
};
use crate::hash::H256;
use crate::uint::{two_pow_256, Difficulty, U256};
use vstd::prelude::*;
use vstd::std_specs::cmp::PartialEqSpecImpl;

verus! {

/// The number of bytes that a record takes on the wire.
pub const ENCODED_LEN: usize = 96;

/// Why a byte string could not be read as a record.
#[derive(Clone, Copy, Debug, PartialEq, Eq, Structural)]
pub enum DecodeError {
    /// The bytes end before the last field does.
    NotEnoughData,
}

/// A record as the wire sees it: a number and two byte strings.
pub struct RecordView {
    pub difficulty: nat,
    pub first: Seq<u8>,
    pub second: Seq<u8>,
}

impl RecordView {
    /// The number fits in 256 bits and each digest has thirty-two bytes.
    pub open spec fn wf(self) -> bool {
        &&& self.difficulty < two_pow_256()
        &&& self.first.len() == 32
        &&& self.second.len() == 32
    }

    /// The bytes of the record on the wire.
    pub open spec fn encode(self) -> Seq<u8> {
        le_bytes(self.difficulty, 32) + self.first + self.second
    }

    /// The record that a byte string starts with, if it is long enough to hold
    /// one. What follows the ninety-sixth byte is not looked at.
    pub open spec fn decode(bytes: Seq<u8>) -> Option<RecordView> {
        if bytes.len() >= 96 {
            Some(
                RecordView {
                    difficulty: le_value(bytes.subrange(0, 32)),
                    first: bytes.subrange(32, 64),
                    second: bytes.subrange(64, 96),
                },
            )
        } else {
            None
        }
    }

    /// A record takes ninety-six bytes.
    pub proof fn lemma_encode_len(self)
        requires
            self.wf(),
        ensures
            self.encode().len() == 96,
    {
        lemma_le_bytes_len(self.difficulty, 32);
    }

    /// Decoding what was encoded gives the record back, whatever follows it.
    pub proof fn lemma_decode_encode(self, trailing: Seq<u8>)
        requires
            self.wf(),
        ensures
            RecordView::decode(self.encode() + trailing) == Some(self),
    {
        let number = le_bytes(self.difficulty, 32);
        let bytes = self.encode() + trailing;
        lemma_le_bytes_len(self.difficulty, 32);
        assert(bytes.subrange(0, 32) =~= number);
        assert(bytes.subrange(32, 64) =~= self.first);
        assert(bytes.subrange(64, 96) =~= self.second);
        lemma_le_value_of_le_bytes(self.difficulty, 32);
        lemma_pow256_values();
    }

    /// Encoding what was decoded gives the first ninety-six bytes back.
    pub proof fn lemma_encode_decode(bytes: Seq<u8>)
        requires
            bytes.len() >= 96,
        ensures
            RecordView::decode(bytes) is Some,
            RecordView::decode(bytes)->0.wf(),
            RecordView::decode(bytes)->0.encode() == bytes.subrange(0, 96),
    {
        let number = bytes.subrange(0, 32);
        lemma_le_bytes_of_le_value(number);
        lemma_le_value_bound(number);
        lemma_pow256_values();
    }

    /// No two records share their bytes.
    pub proof fn lemma_encode_injective(a: RecordView, b: RecordView)
        requires
            a.wf(),
            b.wf(),
            a.encode() == b.encode(),
        ensures
            a == b,
    {
        a.lemma_decode_encode(Seq::empty());
        b.lemma_decode_encode(Seq::empty());
    }
}

/// Writes the three fields one after the other.
fn encode_record(difficulty: &U256, first: &H256, second: &H256) -> (out: Vec<u8>)
    ensures
        out@ == (RecordView { difficulty: difficulty@, first: first@, second: second@ }).encode(),
{
    let mut out: Vec<u8> = Vec::with_capacity(ENCODED_LEN);
    difficulty.encode_to(&mut out);
    first.encode_to(&mut out);
    second.encode_to(&mut out);
    out
}

/// Reads the three fields from the front of `bytes`.
fn decode_record(bytes: &[u8]) -> (r: Result<(U256, H256, H256), DecodeError>)
    ensures
        match r {
            Ok((difficulty, first, second)) => RecordView::decode(bytes@) == Some(
                RecordView { difficulty: difficulty@, first: first@, second: second@ },
            ),
            Err(e) => e == DecodeError::NotEnoughData && RecordView::decode(bytes@) is None,
        },
{
    if bytes.len() < ENCODED_LEN {
        return Err(DecodeError::NotEnoughData);
    }
    let difficulty = U256::decode_at(bytes, 0);
    let first = H256::decode_at(bytes, 32);
    let second = H256::decode_at(bytes, 64);
    Ok((difficulty, first, second))
}

/// The proof record that a sealed header carries.
#[derive(Clone, Copy, Debug, Eq)]
pub struct Seal {
    pub difficulty: Difficulty,
    pub work: H256,
    pub nonce: H256,
}

/// What a [`Seal`] holds: the difficulty as a number, the digests as bytes.
pub struct SealView {
    pub difficulty: nat,
    pub work: Seq<u8>,
    pub nonce: Seq<u8>,
}

impl SealView {
    /// The number fits in 256 bits and each digest has thirty-two bytes.
    pub open spec fn wf(self) -> bool {
        self.record().wf()
    }

    /// The seal's fields in wire order: difficulty, work, nonce.
    pub open spec fn record(self) -> RecordView {
        RecordView { difficulty: self.difficulty, first: self.work, second: self.nonce }
    }

    /// The bytes of the seal on the wire.
    pub open spec fn encode(self) -> Seq<u8> {
        self.record().encode()
    }

    /// The seal that a byte string starts with, if it holds ninety-six bytes.
    pub open spec fn decode(bytes: Seq<u8>) -> Option<SealView> {
        match RecordView::decode(bytes) {
            Some(record) => Some(
                SealView { difficulty: record.difficulty, work: record.first, nonce: record.second },
            ),
            None => None,
        }
    }
}

impl View for Seal {
    type V = SealView;

    open spec fn view(&self) -> SealView {
        SealView { difficulty: self.difficulty@, work: self.work@, nonce: self.nonce@ }
    }
}

impl PartialEq for Seal {
    fn eq(&self, other: &Seal) -> (r: bool) {
        self.difficulty == other.difficulty && self.work == other.work && self.nonce == other.nonce
    }
}

impl PartialEqSpecImpl for Seal {
    open spec fn obeys_eq_spec() -> bool {
        true
    }

    open spec fn eq_spec(&self, other: &Seal) -> bool {
        *self == *other
    }
}

impl Seal {
    /// The seal on the wire: ninety-six bytes.
    pub fn encode(&self) -> (out: Vec<u8>)
        ensures
            out@ == self@.encode(),
            out@.len() == ENCODED_LEN,
    {
        proof {
            self@.record().lemma_encode_len();
        }
        encode_record(&self.difficulty, &self.work, &self.nonce)
    }

    /// Reads a seal from the front of `bytes`. It fails on fewer than ninety-six
    /// bytes and on nothing else.
    pub fn decode(bytes: &[u8]) -> (r: Result<Seal, DecodeError>)
        ensures
            match r {
                Ok(seal) => SealView::decode(bytes@) == Some(seal@),
                Err(e) => e == DecodeError::NotEnoughData && bytes@.len() < 96,
            },
    {
        match decode_record(bytes) {
            Ok((difficulty, work, nonce)) => Ok(Seal { difficulty, work, nonce }),
            Err(e) => Err(e),
        }
    }

    /// What a seal holds is well formed.
    pub proof fn lemma_view_wf(seal: Seal)
        ensures
            seal@.wf(),
    {
    }

    /// A seal is determined by what it holds.
    pub proof fn lemma_view_injective(a: Seal, b: Seal)
        ensures
            (a@ == b@) <==> (a == b),
    {
        U256::lemma_view_injective(a.difficulty, b.difficulty);
        H256::lemma_view_injective(a.work, b.work);
        H256::lemma_view_injective(a.nonce, b.nonce);
    }
}

/// The record whose encoding is hashed; it lives only as long as that takes.
#[derive(Clone, Copy, Debug, Eq)]
pub struct Calculation {
    pub difficulty: Difficulty,
    pub pre_hash: H256,
    pub nonce: H256,
}

/// What a [`Calculation`] holds: the difficulty as a number, the digests as bytes.
pub struct CalculationView {
    pub difficulty: nat,
    pub pre_hash: Seq<u8>,
    pub nonce: Seq<u8>,
}

impl CalculationView {
    /// The number fits in 256 bits and each digest has thirty-two bytes.
    pub open spec fn wf(self) -> bool {
        self.record().wf()
    }

    /// The calculation's fields in wire order: difficulty, pre-hash, nonce.
    pub open spec fn record(self) -> RecordView {
        RecordView { difficulty: self.difficulty, first: self.pre_hash, second: self.nonce }
    }

    /// The bytes of the calculation: what the work is the digest of.
    pub open spec fn encode(self) -> Seq<u8> {
        self.record().encode()
    }

    /// The calculation that a byte string starts with, if it holds ninety-six bytes.
    pub open spec fn decode(bytes: Seq<u8>) -> Option<CalculationView> {
        match RecordView::decode(bytes) {
            Some(record) => Some(
                CalculationView {
                    difficulty: record.difficulty,
                    pre_hash: record.first,
                    nonce: record.second,
                },
            ),
            None => None,
        }
    }
}

impl View for Calculation {
    type V = CalculationView;

    open spec fn view(&self) -> CalculationView {
        CalculationView {
            difficulty: self.difficulty@,
            pre_hash: self.pre_hash@,
            nonce: self.nonce@,
        }
    }
}

impl PartialEq for Calculation {
    fn eq(&self, other: &Calculation) -> (r: bool) {
        self.difficulty == other.difficulty && self.pre_hash == other.pre_hash && self.nonce
            == other.nonce
    }
}

impl PartialEqSpecImpl for Calculation {
    open spec fn obeys_eq_spec() -> bool {
        true
    }

    open spec fn eq_spec(&self, other: &Calculation) -> bool {
        *self == *other
    }
}

impl Calculation {
    /// The calculation as bytes: ninety-six of them.
    pub fn encode(&self) -> (out: Vec<u8>)
        ensures
            out@ == self@.encode(),
            out@.len() == ENCODED_LEN,
    {
        proof {
            self@.record().lemma_encode_len();
        }
        encode_record(&self.difficulty, &self.pre_hash, &self.nonce)
    }

    /// Reads a calculation from the front of `bytes`. It fails on fewer than
    /// ninety-six bytes and on nothing else.
    pub fn decode(bytes: &[u8]) -> (r: Result<Calculation, DecodeError>)
        ensures
            match r {
                Ok(calculation) => CalculationView::decode(bytes@) == Some(calculation@),
                Err(e) => e == DecodeError::NotEnoughData && bytes@.len() < 96,
            },
    {
        match decode_record(bytes) {
            Ok((difficulty, pre_hash, nonce)) => Ok(Calculation { difficulty, pre_hash, nonce }),
            Err(e) => Err(e),
        }
    }

    /// What a calculation holds is well formed.
    pub proof fn lemma_view_wf(calculation: Calculation)
        ensures
            calculation@.wf(),
    {
    }
}

/// Encoding then decoding a seal yields the seal, for every seal.
pub proof fn lemma_seal_round_trip(seal: SealView)
    requires
        seal.wf(),
    ensures
        SealView::decode(seal.encode()) == Some(seal),
{
    seal.record().lemma_decode_encode(Seq::empty());
}

/// Encoding then decoding a calculation yields the calculation, for every one.
pub proof fn lemma_calculation_round_trip(calculation: CalculationView)
    requires
        calculation.wf(),
    ensures
        CalculationView::decode(calculation.encode()) == Some(calculation),
{
    calculation.record().lemma_decode_encode(Seq::empty());
}

/// Distinct seals never share their bytes.
pub proof fn lemma_seal_encoding_injective(a: SealView, b: SealView)
    requires
        a.wf(),
        b.wf(),
        a.encode() == b.encode(),
    ensures
        a == b,
{
    RecordView::lemma_encode_injective(a.record(), b.record());
}

/// Distinct calculations never share their bytes.
pub proof fn lemma_calculation_encoding_injective(a: CalculationView, b: CalculationView)
    requires
        a.wf(),
        b.wf(),
        a.encode() == b.encode(),
    ensures
        a == b,
{
    RecordView::lemma_encode_injective(a.record(), b.record());
}

} // verus!
