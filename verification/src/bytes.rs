//! Numbers as byte strings: what a string of bytes is worth when it is read
//! as a base-256 numeral, in either byte order, and the digits of a number
//! with the least significant first.

use vstd::prelude::*;
use vstd::arithmetic::div_mod::lemma_mod_breakdown;

verus! {

/// 256 to the power `n`.
pub open spec fn pow256(n: nat) -> nat
    decreases n,
{
    if n == 0 {
        1
    } else {
        256 * pow256((n - 1) as nat)
    }
}

/// The number that `bytes` spells when the first byte is the least significant.
pub open spec fn le_value(bytes: Seq<u8>) -> nat
    decreases bytes.len(),
{
    if bytes.len() == 0 {
        0
    } else {
        bytes[0] as nat + 256 * le_value(bytes.drop_first())
    }
}

/// The number that `bytes` spells when the first byte is the most significant.
pub open spec fn be_value(bytes: Seq<u8>) -> nat
    decreases bytes.len(),
{
    if bytes.len() == 0 {
        0
    } else {
        256 * be_value(bytes.drop_last()) + bytes.last() as nat
    }
}

/// The `len` least significant base-256 digits of `value`, least significant first.
pub open spec fn le_bytes(value: nat, len: nat) -> Seq<u8>
    decreases len,
{
    if len == 0 {
        Seq::empty()
    } else {
        seq![(value % 256) as u8] + le_bytes(value / 256, (len - 1) as nat)
    }
}

/// No power of 256 is zero.
pub proof fn lemma_pow256_positive(n: nat)
    ensures
        pow256(n) > 0,
    decreases n,
{
    if n > 0 {
        lemma_pow256_positive((n - 1) as nat);
    }
}

/// A larger exponent gives no smaller power.
pub proof fn lemma_pow256_monotonic(a: nat, b: nat)
    requires
        a <= b,
    ensures
        pow256(a) <= pow256(b),
    decreases b,
{
    if a < b {
        lemma_pow256_monotonic(a, (b - 1) as nat);
    }
}

/// Eight bytes hold a 64-bit word and thirty-two bytes a 256-bit one.
pub proof fn lemma_pow256_values()
    ensures
        pow256(8) == 0x1_0000_0000_0000_0000,
        pow256(16) == 0x1_0000_0000_0000_0000_0000_0000_0000_0000,
        pow256(24) == 0x1_0000_0000_0000_0000_0000_0000_0000_0000_0000_0000_0000_0000,
        pow256(32)
            == 0x1_0000_0000_0000_0000_0000_0000_0000_0000_0000_0000_0000_0000_0000_0000_0000_0000,
{
    reveal_with_fuel(pow256, 9);
    assert(pow256(32) == 0x1_0000_0000_0000_0000 * pow256(24));
}

/// A numeral of `n` bytes is worth less than 256 to the `n`.
pub proof fn lemma_le_value_bound(bytes: Seq<u8>)
    ensures
        le_value(bytes) < pow256(bytes.len()),
    decreases bytes.len(),
{
    if bytes.len() > 0 {
        lemma_le_value_bound(bytes.drop_first());
    }
}

/// The same bound for the other byte order.
pub proof fn lemma_be_value_bound(bytes: Seq<u8>)
    ensures
        be_value(bytes) < pow256(bytes.len()),
    decreases bytes.len(),
{
    if bytes.len() > 0 {
        lemma_be_value_bound(bytes.drop_last());
    }
}

/// The worth of two numerals written one after the other.
pub proof fn lemma_le_value_concat(low: Seq<u8>, high: Seq<u8>)
    ensures
        le_value(low + high) == le_value(low) + pow256(low.len()) * le_value(high),
    decreases low.len(),
{
    if low.len() == 0 {
        assert(pow256(0) == 1);
    } else {
        let rest = low.drop_first();
        assert((low + high).drop_first() =~= rest + high);
        lemma_le_value_concat(rest, high);
        let p = pow256(rest.len());
        let h = le_value(high);
        assert(256 * (p * h) == (256 * p) * h) by (nonlinear_arith);
    }
}

/// A number has as many digits as were asked for.
pub proof fn lemma_le_bytes_len(value: nat, len: nat)
    ensures
        le_bytes(value, len).len() == len,
    decreases len,
{
    if len > 0 {
        lemma_le_bytes_len(value / 256, (len - 1) as nat);
    }
}

/// Reading back the digits of a number gives the number, as far as the digits reach.
pub proof fn lemma_le_value_of_le_bytes(value: nat, len: nat)
    ensures
        le_value(le_bytes(value, len)) == value % pow256(len),
    decreases len,
{
    if len > 0 {
        let tail = le_bytes(value / 256, (len - 1) as nat);
        lemma_le_value_of_le_bytes(value / 256, (len - 1) as nat);
        assert(le_bytes(value, len).drop_first() =~= tail);
        lemma_pow256_positive((len - 1) as nat);
        lemma_mod_breakdown(value as int, 256, pow256((len - 1) as nat) as int);
    }
}

/// The digits of what a numeral is worth are the numeral.
pub proof fn lemma_le_bytes_of_le_value(bytes: Seq<u8>)
    ensures
        le_bytes(le_value(bytes), bytes.len()) == bytes,
    decreases bytes.len(),
{
    if bytes.len() > 0 {
        lemma_le_bytes_of_le_value(bytes.drop_first());
    }
}

/// The digits of `low + 256^n * high` are the `n` digits of `low`, then those of `high`.
pub proof fn lemma_le_bytes_concat(low: nat, high: nat, n: nat, m: nat)
    requires
        low < pow256(n),
    ensures
        le_bytes(low + pow256(n) * high, n + m) == le_bytes(low, n) + le_bytes(high, m),
    decreases n,
{
    if n > 0 {
        let p = pow256((n - 1) as nat);
        let carry = p * high;
        let value = low + pow256(n) * high;
        assert(pow256(n) * high == 256 * carry) by (nonlinear_arith)
            requires
                pow256(n) == 256 * p,
                carry == p * high,
        ;
        assert(value % 256 == low % 256);
        lemma_le_bytes_concat(low / 256, high, (n - 1) as nat, m);
    }
}

/// Appends the eight bytes of `word`, least significant first.
pub(crate) fn push_u64_le(out: &mut Vec<u8>, word: u64)
    ensures
        final(out)@ == old(out)@ + le_bytes(word as nat, 8),
{
    let ghost start = out@;
    let mut rest: u64 = word;
    let mut i: usize = 0;
    while i < 8
        invariant
            i <= 8,
            out@ + le_bytes(rest as nat, (8 - i) as nat) == start + le_bytes(word as nat, 8),
        decreases 8 - i,
    {
        out.push((rest % 256) as u8);
        rest = rest / 256;
        i += 1;
    }
}

/// Reads the 64-bit word whose eight bytes, least significant first, start at `at`.
pub(crate) fn read_u64_le(bytes: &[u8], at: usize) -> (word: u64)
    requires
        at + 8 <= bytes@.len(),
    ensures
        word as nat == le_value(bytes@.subrange(at as int, at + 8)),
{
    let len = bytes.len();
    let mut word: u64 = 0;
    let mut i: usize = 8;
    while i > 0
        invariant
            i <= 8,
            len == bytes@.len(),
            at + 8 <= len,
            word as nat == le_value(bytes@.subrange(at + i, at + 8)),
        decreases i,
    {
        proof {
            let read = bytes@.subrange(at + i, at + 8);
            lemma_le_value_bound(read);
            lemma_pow256_monotonic(read.len(), 7);
            reveal_with_fuel(pow256, 8);
            assert(bytes@.subrange(at + i - 1, at + 8).drop_first() =~= read);
        }
        i -= 1;
        word = word * 256 + bytes[at + i] as u64;
    }
    word
}

} // verus!
