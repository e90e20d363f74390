//! The sealing engine: the target test, the work computation, and the three
//! operations that block authoring and block import call.

use crate::bytes::{be_value, lemma_be_value_bound, lemma_pow256_values};
use crate::codec::{lemma_seal_round_trip, CalculationView, SealView};
use crate::hash::{sha3_256, sha3_256_digest, H256};
use crate::cancel::is_set;
use crate::rng::{describe, random_hash, small_rng_from_os};
use crate::uint::{from_big_endian, overflowing_mul, two_pow_256, U256};
use std::sync::atomic::AtomicBool;
use vstd::prelude::*;

pub use crate::codec::{Calculation, Seal};
pub use crate::uint::Difficulty;

verus! {

/// The difficulty that every block is sealed against.
pub const FIXED_DIFFICULTY: u64 = 10000;

/// A seal as it travels in a header.
pub type RawSeal = Vec<u8>;

/// A digest meets a difficulty when their product, the digest read as a number
/// with its first byte the most significant, still fits in 256 bits.
pub open spec fn hash_meets_target(hash: Seq<u8>, difficulty: nat) -> bool {
    be_value(hash) * difficulty < two_pow_256()
}

/// Tells whether `hash` meets `difficulty`. At difficulty zero and at
/// difficulty one every digest does.
pub fn is_valid_hash(hash: &H256, difficulty: Difficulty) -> (valid: bool)
    ensures
        valid == hash_meets_target(hash@, difficulty@),
        difficulty@ <= 1 ==> valid,
{
    let num_hash = from_big_endian(&hash.0);
    let (_, overflowed) = overflowing_mul(num_hash, difficulty);
    proof {
        if difficulty@ == 0 {
            lemma_zero_difficulty_accepts_all(hash@);
        } else if difficulty@ == 1 {
            lemma_unit_difficulty_accepts_all(hash@);
        }
    }
    !overflowed
}

/// The work for a pre-hash, a difficulty and a nonce: the SHA3-256 digest of
/// the calculation that the three make.
pub open spec fn work_of(pre_hash: Seq<u8>, difficulty: nat, nonce: Seq<u8>) -> Seq<u8> {
    sha3_256(CalculationView { difficulty, pre_hash, nonce }.encode())@
}

/// The seal for a pre-hash, a difficulty and a nonce.
pub open spec fn computed_seal(pre_hash: Seq<u8>, difficulty: nat, nonce: Seq<u8>) -> SealView {
    SealView { difficulty, work: work_of(pre_hash, difficulty, nonce), nonce }
}

/// The inputs of one work computation.
#[derive(Clone, Copy, Debug, PartialEq, Eq)]
pub struct Compute {
    pub pre_hash: H256,
    pub difficulty: Difficulty,
    pub nonce: H256,
}

impl Compute {
    /// The record whose bytes are hashed.
    pub fn calculation(&self) -> (calculation: Calculation)
        ensures
            calculation == (Calculation {
                difficulty: self.difficulty,
                pre_hash: self.pre_hash,
                nonce: self.nonce,
            }),
    {
        Calculation { difficulty: self.difficulty, pre_hash: self.pre_hash, nonce: self.nonce }
    }

    /// The seal that carries `work` beside this computation's difficulty and nonce.
    pub fn seal_with(&self, work: H256) -> (seal: Seal)
        ensures
            seal == (Seal { difficulty: self.difficulty, work, nonce: self.nonce }),
    {
        Seal { nonce: self.nonce, difficulty: self.difficulty, work }
    }

    /// Computes the seal: the digest of the encoded calculation becomes the
    /// work, and the difficulty and the nonce are carried over.
    pub fn compute(self) -> (seal: Seal)
        ensures
            seal@ == computed_seal(self.pre_hash@, self.difficulty@, self.nonce@),
            seal.difficulty == self.difficulty,
            seal.nonce == self.nonce,
    {
        let calculation = self.calculation();
        let encoded = calculation.encode();
        let work = sha3_256_digest(encoded.as_slice());
        self.seal_with(work)
    }
}

/// The block that a header is built on: by its hash or by its number.
#[derive(Clone, Copy, Debug, PartialEq, Eq)]
pub enum BlockId {
    Hash(H256),
    Number(u64),
}

/// What can go wrong inside the engine. A seal that does not verify is no
/// error, and neither is a search that finds nothing.
#[derive(Debug, PartialEq, Eq)]
pub enum PowError {
    /// The surroundings failed the engine; the text says how.
    Environment(String),
}

/// How the text of a [`PowError::Environment`] begins when the nonce generator
/// could not be seeded.
pub open spec fn rng_failure_prefix() -> Seq<char> {
    "Initialize RNG failed for mining: "@
}

impl PowError {
    /// The error for a nonce generator that could not be seeded; `detail` says
    /// what the generator reported.
    pub fn rng_failure(detail: &str) -> (error: PowError)
        ensures
            error matches PowError::Environment(text) && text@ == rng_failure_prefix() + detail@,
    {
        PowError::Environment(String::from_str("Initialize RNG failed for mining: ").concat(detail))
    }

    /// The text of the error.
    pub fn message(&self) -> (text: String)
        ensures
            self matches PowError::Environment(inner) && text@ == inner@,
    {
        match self {
            PowError::Environment(inner) => inner.clone(),
        }
    }
}

/// Whether `seal_bytes` seal a header with the given pre-hash at `difficulty`:
/// they decode to a seal, its work meets the difficulty, and computing the seal
/// anew from the pre-hash, the difficulty and the seal's nonce gives that very
/// seal.
pub open spec fn seal_verifies(pre_hash: Seq<u8>, seal_bytes: Seq<u8>, difficulty: nat) -> bool {
    match SealView::decode(seal_bytes) {
        Some(seal) => {
            &&& hash_meets_target(seal.work, difficulty)
            &&& computed_seal(pre_hash, difficulty, seal.nonce) == seal
        },
        None => false,
    }
}

/// What one round of the search yields for a nonce: the encoded seal if its
/// work meets the difficulty, nothing otherwise.
pub open spec fn round_outcome(pre_hash: Seq<u8>, difficulty: nat, nonce: Seq<u8>) -> Option<
    Seq<u8>,
> {
    let seal = computed_seal(pre_hash, difficulty, nonce);
    if hash_meets_target(seal.work, difficulty) {
        Some(seal.encode())
    } else {
        None
    }
}

/// Whether `found` is what a search of at most `rounds` rounds yields when the
/// nonces it draws are `draws`, in that order: the search stops at the first
/// nonce whose round yields a seal, and yields nothing once `rounds` nonces
/// have failed.
pub open spec fn search_outcome(
    pre_hash: Seq<u8>,
    difficulty: nat,
    rounds: nat,
    draws: Seq<Seq<u8>>,
    found: Option<Seq<u8>>,
) -> bool {
    &&& forall|i: int| 0 <= i < draws.len() ==> (#[trigger] draws[i]).len() == 32
    &&& match found {
        Some(seal) => {
            &&& 0 < draws.len() <= rounds
            &&& forall|i: int|
                0 <= i < draws.len() - 1 ==> round_outcome(
                    pre_hash,
                    difficulty,
                    #[trigger] draws[i],
                ) is None
            &&& round_outcome(pre_hash, difficulty, draws.last()) == Some(seal)
        },
        None => {
            &&& draws.len() == rounds
            &&& forall|i: int|
                0 <= i < draws.len() ==> round_outcome(
                    pre_hash,
                    difficulty,
                    #[trigger] draws[i],
                ) is None
        },
    }
}

/// What a search does at the top of a round.
#[derive(Clone, Copy, Debug, PartialEq, Eq, Structural)]
pub enum SearchStep {
    /// Draw a nonce and try it.
    Draw,
    /// End the search without a seal.
    Stop,
}

/// The step at the top of a round, after `tried` rounds of at most `rounds`:
/// the search stops when it was cancelled or has used up its rounds, and
/// draws otherwise.
pub open spec fn step_at(tried: nat, rounds: nat, cancelled: bool) -> SearchStep {
    if cancelled || tried >= rounds {
        SearchStep::Stop
    } else {
        SearchStep::Draw
    }
}

/// Whether the signal never read as set.
pub open spec fn never_set(signals: Seq<bool>) -> bool {
    forall|i: int| 0 <= i < signals.len() ==> !#[trigger] signals[i]
}

/// Whether `found` is what a search of at most `rounds` rounds yields when the
/// signal, read at the top of each round, reads as `signals` and the nonces
/// drawn are `draws`, in that order. Every draw follows a reading that let the
/// search go on; the search ends with the first nonce whose round yields a
/// seal, or without a seal at the first reading at which [`step_at`] says
/// stop, and then draws no further nonce.
pub open spec fn cancellable_search_outcome(
    pre_hash: Seq<u8>,
    difficulty: nat,
    rounds: nat,
    signals: Seq<bool>,
    draws: Seq<Seq<u8>>,
    found: Option<Seq<u8>>,
) -> bool {
    &&& forall|i: int| 0 <= i < draws.len() ==> (#[trigger] draws[i]).len() == 32
    &&& draws.len() <= signals.len()
    &&& forall|i: int|
        0 <= i < draws.len() ==> step_at(i as nat, rounds, #[trigger] signals[i])
            == SearchStep::Draw
    &&& match found {
        Some(seal) => {
            &&& 0 < draws.len() == signals.len()
            &&& forall|i: int|
                0 <= i < draws.len() - 1 ==> round_outcome(
                    pre_hash,
                    difficulty,
                    #[trigger] draws[i],
                ) is None
            &&& round_outcome(pre_hash, difficulty, draws.last()) == Some(seal)
        },
        None => {
            &&& signals.len() == draws.len() + 1
            &&& step_at(draws.len(), rounds, signals.last()) == SearchStep::Stop
            &&& forall|i: int|
                0 <= i < draws.len() ==> round_outcome(
                    pre_hash,
                    difficulty,
                    #[trigger] draws[i],
                ) is None
        },
    }
}

/// The bytes of a seal that may or may not have been found.
pub open spec fn found_bytes(found: Option<RawSeal>) -> Option<Seq<u8>> {
    match found {
        Some(seal) => Some(seal@),
        None => None,
    }
}

/// Proof of work by SHA3-256 at a fixed difficulty. The engine keeps nothing
/// between calls.
#[derive(Clone, Copy, Debug, PartialEq, Eq)]
pub struct Sha3Algorithm;

impl Sha3Algorithm {
    /// The difficulty for a block built on `parent`: the same for every parent.
    pub fn difficulty(&self, parent: &BlockId) -> (r: Result<Difficulty, PowError>)
        ensures
            r matches Ok(difficulty) && difficulty@ == FIXED_DIFFICULTY,
    {
        Ok(U256::from(FIXED_DIFFICULTY))
    }

    /// Judges the seal of a header. Bytes that are no seal, a work that misses
    /// the difficulty and a seal that computing anew does not give back are all
    /// answered with `false`; the call itself never fails.
    pub fn verify(
        &self,
        parent: &BlockId,
        pre_hash: &H256,
        seal: &RawSeal,
        difficulty: Difficulty,
    ) -> (r: Result<bool, PowError>)
        ensures
            r matches Ok(valid) && valid == seal_verifies(pre_hash@, seal@, difficulty@),
            seal@.len() < 96 ==> r == Ok::<bool, PowError>(false),
    {
        let seal = match Seal::decode(seal.as_slice()) {
            Ok(seal) => seal,
            Err(_) => return Ok(false),
        };

        if !is_valid_hash(&seal.work, difficulty) {
            return Ok(false);
        }

        let compute = Compute { difficulty, pre_hash: *pre_hash, nonce: seal.nonce };
        let computed = compute.compute();
        proof {
            Seal::lemma_view_injective(computed, seal);
        }

        if computed != seal {
            return Ok(false);
        }

        Ok(true)
    }

    /// One round of the search with the nonce given: computes the seal and
    /// hands out its bytes if the work meets the difficulty. A caller that
    /// paces the rounds asks [`Sha3Algorithm::next_step`] at the top of each
    /// round, draws the nonce itself and calls this.
    pub fn mine_round(&self, pre_hash: &H256, difficulty: Difficulty, nonce: H256) -> (found:
        Option<RawSeal>)
        ensures
            found_bytes(found) == round_outcome(pre_hash@, difficulty@, nonce@),
    {
        let compute = Compute { difficulty, pre_hash: *pre_hash, nonce };
        let seal = compute.compute();
        if is_valid_hash(&seal.work, difficulty) {
            Some(seal.encode())
        } else {
            None
        }
    }

    /// Decides what the search does at the top of a round: it stops when it
    /// was cancelled or when `tried` rounds have used up `round`, and draws
    /// otherwise.
    pub fn next_step(tried: u32, round: u32, cancelled: bool) -> (step: SearchStep)
        ensures
            step == step_at(tried as nat, round as nat, cancelled),
    {
        if cancelled || tried >= round {
            SearchStep::Stop
        } else {
            SearchStep::Draw
        }
    }

    /// Searches for a seal with up to `round` nonces drawn at random, one round
    /// after the other without a pause, and hands out the first seal found.
    /// Whatever is found verifies. The call fails only when the operating
    /// system does not seed the nonce generator.
    pub fn mine(
        &self,
        parent: &BlockId,
        pre_hash: &H256,
        difficulty: Difficulty,
        round: u32,
    ) -> (r: Result<Option<RawSeal>, PowError>)
        ensures
            match r {
                Ok(found) => {
                    &&& exists|draws: Seq<Seq<u8>>|
                        search_outcome(
                            pre_hash@,
                            difficulty@,
                            round as nat,
                            draws,
                            found_bytes(found),
                        )
                    &&& found matches Some(seal) ==> seal_verifies(
                        pre_hash@,
                        seal@,
                        difficulty@,
                    )
                    &&& round == 0 ==> found is None
                },
                Err(PowError::Environment(text)) => rng_failure_prefix().is_prefix_of(text@),
            },
    {
        let r = self.search(pre_hash, difficulty, round, None);
        proof {
            if r is Ok {
                let found = r->Ok_0;
                let (signals, draws) = choose|signals: Seq<bool>, draws: Seq<Seq<u8>>|
                    cancellable_search_outcome(
                        pre_hash@,
                        difficulty@,
                        round as nat,
                        signals,
                        draws,
                        found_bytes(found),
                    ) && never_set(signals);
                lemma_uncancelled_search(
                    pre_hash@,
                    difficulty@,
                    round as nat,
                    signals,
                    draws,
                    found_bytes(found),
                );
            }
        }
        r
    }

    /// Searches as [`Sha3Algorithm::mine`] does, and reads `cancel` at the top
    /// of every round: once it reads as set, the search ends without a seal
    /// and draws no further nonce.
    pub fn mine_cancellable(
        &self,
        parent: &BlockId,
        pre_hash: &H256,
        difficulty: Difficulty,
        round: u32,
        cancel: &AtomicBool,
    ) -> (r: Result<Option<RawSeal>, PowError>)
        ensures
            match r {
                Ok(found) => {
                    &&& exists|signals: Seq<bool>, draws: Seq<Seq<u8>>|
                        cancellable_search_outcome(
                            pre_hash@,
                            difficulty@,
                            round as nat,
                            signals,
                            draws,
                            found_bytes(found),
                        )
                    &&& found matches Some(seal) ==> seal_verifies(
                        pre_hash@,
                        seal@,
                        difficulty@,
                    )
                    &&& round == 0 ==> found is None
                },
                Err(PowError::Environment(text)) => rng_failure_prefix().is_prefix_of(text@),
            },
    {
        self.search(pre_hash, difficulty, round, Some(cancel))
    }

    /// The search itself, with or without a signal to read.
    fn search(
        &self,
        pre_hash: &H256,
        difficulty: Difficulty,
        round: u32,
        signal: Option<&AtomicBool>,
    ) -> (r: Result<Option<RawSeal>, PowError>)
        ensures
            match r {
                Ok(found) => {
                    &&& exists|signals: Seq<bool>, draws: Seq<Seq<u8>>|
                        cancellable_search_outcome(
                            pre_hash@,
                            difficulty@,
                            round as nat,
                            signals,
                            draws,
                            found_bytes(found),
                        ) && (signal is None ==> never_set(signals))
                    &&& found matches Some(seal) ==> seal_verifies(
                        pre_hash@,
                        seal@,
                        difficulty@,
                    )
                    &&& round == 0 ==> found is None
                },
                Err(PowError::Environment(text)) => rng_failure_prefix().is_prefix_of(text@),
            },
    {
        let mut rng = match small_rng_from_os() {
            Ok(rng) => rng,
            Err(e) => return Err(PowError::rng_failure(describe(&e).as_str())),
        };

        let ghost mut signals: Seq<bool> = Seq::empty();
        let ghost mut draws: Seq<Seq<u8>> = Seq::empty();
        let mut tried: u32 = 0;
        loop
            invariant
                tried <= round,
                draws.len() == tried,
                signals.len() == tried,
                signal is None ==> never_set(signals),
                forall|i: int| 0 <= i < draws.len() ==> (#[trigger] draws[i]).len() == 32,
                forall|i: int|
                    0 <= i < draws.len() ==> step_at(i as nat, round as nat, #[trigger] signals[i])
                        == SearchStep::Draw,
                forall|i: int|
                    0 <= i < draws.len() ==> round_outcome(
                        pre_hash@,
                        difficulty@,
                        #[trigger] draws[i],
                    ) is None,
            decreases round - tried,
        {
            let cancelled = is_set(signal);
            let ghost read = signals.push(cancelled);
            match Sha3Algorithm::next_step(tried, round, cancelled) {
                SearchStep::Stop => {
                    proof {
                        assert(cancellable_search_outcome(
                            pre_hash@,
                            difficulty@,
                            round as nat,
                            read,
                            draws,
                            None,
                        ));
                    }
                    return Ok(None);
                },
                SearchStep::Draw => {},
            }

            let nonce = random_hash(&mut rng);
            let found = self.mine_round(pre_hash, difficulty, nonce);
            if let Some(seal) = found {
                proof {
                    assert(cancellable_search_outcome(
                        pre_hash@,
                        difficulty@,
                        round as nat,
                        read,
                        draws.push(nonce@),
                        Some(seal@),
                    ));
                    U256::lemma_view_bound(difficulty);
                    lemma_honest_seal_verifies(pre_hash@, difficulty@, nonce@);
                }
                return Ok(Some(seal));
            }
            proof {
                signals = read;
                draws = draws.push(nonce@);
            }
            tried += 1;
        }
    }
}

/// A search whose signal never reads as set is a search without a signal: it
/// ends with a seal or after all its rounds.
pub proof fn lemma_uncancelled_search(
    pre_hash: Seq<u8>,
    difficulty: nat,
    rounds: nat,
    signals: Seq<bool>,
    draws: Seq<Seq<u8>>,
    found: Option<Seq<u8>>,
)
    requires
        cancellable_search_outcome(pre_hash, difficulty, rounds, signals, draws, found),
        never_set(signals),
    ensures
        search_outcome(pre_hash, difficulty, rounds, draws, found),
{
    if draws.len() > 0 {
        assert(step_at((draws.len() - 1) as nat, rounds, signals[draws.len() - 1])
            == SearchStep::Draw);
    }
}

/// A search draws nothing after a reading at which the signal was set: that
/// reading is the last, the draws are as many as the readings before it, and
/// no seal is found. A signal that is set from the start means no draw at all.
pub proof fn lemma_no_draw_after_cancellation(
    pre_hash: Seq<u8>,
    difficulty: nat,
    rounds: nat,
    signals: Seq<bool>,
    draws: Seq<Seq<u8>>,
    found: Option<Seq<u8>>,
    at: int,
)
    requires
        cancellable_search_outcome(pre_hash, difficulty, rounds, signals, draws, found),
        0 <= at < signals.len(),
        signals[at],
    ensures
        draws.len() == at,
        at == signals.len() - 1,
        found is None,
{
}

/// Difficulty zero lets every digest pass.
pub proof fn lemma_zero_difficulty_accepts_all(hash: Seq<u8>)
    ensures
        hash_meets_target(hash, 0),
{
}

/// Difficulty one lets every digest pass.
pub proof fn lemma_unit_difficulty_accepts_all(hash: Seq<u8>)
    requires
        hash.len() == 32,
    ensures
        hash_meets_target(hash, 1),
{
    lemma_be_value_bound(hash);
    lemma_pow256_values();
}

/// For a difficulty above zero the test is a threshold: a digest passes when,
/// read as a number, it is at most the largest 256-bit number divided by the
/// difficulty.
pub proof fn lemma_target_is_threshold(hash: Seq<u8>, difficulty: nat)
    requires
        difficulty > 0,
    ensures
        hash_meets_target(hash, difficulty) <==> be_value(hash) <= (two_pow_256() - 1)
            / difficulty as int,
{
    let h = be_value(hash) as int;
    let d = difficulty as int;
    let top = two_pow_256() - 1;
    assert(h * d <= top <==> h <= top / d) by (nonlinear_arith)
        requires
            d > 0,
            h >= 0,
            top >= 0,
    ;
}

/// A digest that meets a difficulty meets every smaller one.
pub proof fn lemma_target_shrinks(hash: Seq<u8>, smaller: nat, larger: nat)
    requires
        smaller <= larger,
        hash_meets_target(hash, larger),
    ensures
        hash_meets_target(hash, smaller),
{
    let h = be_value(hash);
    assert(h * smaller <= h * larger) by (nonlinear_arith)
        requires
            smaller <= larger,
    ;
}

/// Computing is a function of its inputs: two seals computed from the same
/// pre-hash, difficulty and nonce are the same seal, byte for byte.
pub proof fn lemma_compute_deterministic(inputs: Compute, first: Seal, second: Seal)
    requires
        first@ == computed_seal(inputs.pre_hash@, inputs.difficulty@, inputs.nonce@),
        second@ == computed_seal(inputs.pre_hash@, inputs.difficulty@, inputs.nonce@),
    ensures
        first == second,
        first@.encode() == second@.encode(),
{
    Seal::lemma_view_injective(first, second);
}

/// A computed seal whose work meets the difficulty verifies, once encoded,
/// against the pre-hash and the difficulty that it was computed from.
pub proof fn lemma_honest_seal_verifies(pre_hash: Seq<u8>, difficulty: nat, nonce: Seq<u8>)
    requires
        difficulty < two_pow_256(),
        nonce.len() == 32,
        hash_meets_target(work_of(pre_hash, difficulty, nonce), difficulty),
    ensures
        seal_verifies(pre_hash, computed_seal(pre_hash, difficulty, nonce).encode(), difficulty),
        round_outcome(pre_hash, difficulty, nonce) == Some(
            computed_seal(pre_hash, difficulty, nonce).encode(),
        ),
{
    lemma_seal_round_trip(computed_seal(pre_hash, difficulty, nonce));
}

/// Putting another work into a seal that verifies makes a seal that does not,
/// even where the other work meets the difficulty by itself.
pub proof fn lemma_tampered_work_is_rejected(
    pre_hash: Seq<u8>,
    difficulty: nat,
    seal: SealView,
    work: Seq<u8>,
)
    requires
        seal.wf(),
        seal_verifies(pre_hash, seal.encode(), difficulty),
        work.len() == 32,
        work != seal.work,
    ensures
        !seal_verifies(
            pre_hash,
            (SealView { difficulty: seal.difficulty, work, nonce: seal.nonce }).encode(),
            difficulty,
        ),
{
    let forged = SealView { difficulty: seal.difficulty, work, nonce: seal.nonce };
    lemma_seal_round_trip(seal);
    lemma_seal_round_trip(forged);
}

/// A seal names its difficulty: bytes that verify at one difficulty verify at
/// no other.
pub proof fn lemma_seal_binds_difficulty(
    pre_hash: Seq<u8>,
    seal_bytes: Seq<u8>,
    difficulty: nat,
    other: nat,
)
    requires
        seal_verifies(pre_hash, seal_bytes, difficulty),
        other != difficulty,
    ensures
        SealView::decode(seal_bytes)->0.difficulty == difficulty,
        !seal_verifies(pre_hash, seal_bytes, other),
{
}

/// Fewer than ninety-six bytes never verify.
pub proof fn lemma_truncated_seal_is_rejected(
    pre_hash: Seq<u8>,
    seal_bytes: Seq<u8>,
    difficulty: nat,
)
    requires
        seal_bytes.len() < 96,
    ensures
        !seal_verifies(pre_hash, seal_bytes, difficulty),
{
}

/// Only the first ninety-six bytes of a seal count.
pub proof fn lemma_trailing_bytes_are_ignored(
    pre_hash: Seq<u8>,
    seal_bytes: Seq<u8>,
    difficulty: nat,
)
    requires
        seal_bytes.len() >= 96,
    ensures
        seal_verifies(pre_hash, seal_bytes, difficulty) == seal_verifies(
            pre_hash,
            seal_bytes.subrange(0, 96),
            difficulty,
        ),
{
    let head = seal_bytes.subrange(0, 96);
    assert(head.subrange(0, 32) =~= seal_bytes.subrange(0, 32));
    assert(head.subrange(32, 64) =~= seal_bytes.subrange(32, 64));
    assert(head.subrange(64, 96) =~= seal_bytes.subrange(64, 96));
}

} // verus!
