//! Fixed-width integers as bytes and as 64-bit words.
//!
//! Bytes are read most significant first; words are stored least significant
//! first, four of them to a 256-bit value.

use vstd::prelude::*;

verus! {

/// The integer that `bytes` spells, most significant byte first.
pub open spec fn be_value(bytes: Seq<u8>) -> nat
    decreases bytes.len(),
{
    if bytes.len() == 0 {
        0
    } else {
        be_value(bytes.drop_last()) * 256 + bytes.last() as nat
    }
}

/// `256` to the power `k`.
pub open spec fn pow256(k: nat) -> nat
    decreases k,
{
    if k == 0 {
        1
    } else {
        256 * pow256((k - 1) as nat)
    }
}

/// The `len` bytes that spell `value % 256^len`, most significant byte first.
pub open spec fn be_bytes(value: nat, len: nat) -> Seq<u8>
    decreases len,
{
    if len == 0 {
        Seq::empty()
    } else {
        be_bytes(value / 256, (len - 1) as nat).push((value % 256) as u8)
    }
}

/// The integer that four words hold, least significant word first.
pub open spec fn limbs_value(w: [u64; 4]) -> nat {
    (w[0] as nat) + (w[1] as nat) * 0x1_0000_0000_0000_0000
        + (w[2] as nat) * 0x1_0000_0000_0000_0000_0000_0000_0000_0000nat
        + (w[3] as nat) * 0x1_0000_0000_0000_0000_0000_0000_0000_0000_0000_0000_0000_0000nat
}

/// `2^256`, one more than the largest value of four words.
pub open spec fn pow2_256() -> nat {
    0x1_0000_0000_0000_0000_0000_0000_0000_0000_0000_0000_0000_0000_0000_0000_0000_0000nat
}

/// `elliptic_curve::util::sbb64` computes `a - (b + carry_in)` in 128 bits,
/// where `carry_in` is the top bit of `borrow`, and splits the result: the low
/// word is the difference modulo `2^64`, the high word is all ones when the
/// subtraction went below zero and zero when it did not.
pub assume_specification[ elliptic_curve::util::sbb64 ](a: u64, b: u64, borrow: u64) -> (r: (
    u64,
    u64,
))
    ensures
        r.0 as int == sbb_difference(a, b, borrow) + (if sbb_difference(a, b, borrow) < 0 {
            0x1_0000_0000_0000_0000int
        } else {
            0int
        }),
        r.1 == (if sbb_difference(a, b, borrow) < 0 {
            0xffff_ffff_ffff_ffffu64
        } else {
            0u64
        }),
;

/// `elliptic_curve::util::adc64` computes `a + b + carry` in 128 bits and
/// splits the sum: the low word is the sum modulo `2^64`, the high word is
/// what was carried out.
pub assume_specification[ elliptic_curve::util::adc64 ](a: u64, b: u64, carry: u64) -> (r: (
    u64,
    u64,
))
    ensures
        r.0 as int == (a as int + b as int + carry as int) % 0x1_0000_0000_0000_0000,
        r.1 as int == (a as int + b as int + carry as int) / 0x1_0000_0000_0000_0000,
;

/// `a - b - 1` when the top bit of `borrow` is set, `a - b` when it is not.
pub open spec fn sbb_difference(a: u64, b: u64, borrow: u64) -> int {
    a as int - b as int - (borrow as int / 0x8000_0000_0000_0000)
}

/// The value of a sequence that is two sequences joined.
pub proof fn lemma_be_value_concat(a: Seq<u8>, b: Seq<u8>)
    ensures
        be_value(a + b) == be_value(a) * pow256(b.len()) + be_value(b),
    decreases b.len(),
{
    if b.len() == 0 {
        assert(a + b =~= a);
        assert(pow256(0) == 1);
        assert(be_value(a) * 1 == be_value(a)) by (nonlinear_arith);
    } else {
        let joined = a + b;
        let front = b.drop_last();
        assert(joined.drop_last() =~= a + front);
        assert(joined.last() == b.last());
        lemma_be_value_concat(a, front);
        let x = be_value(a) as int;
        let p = pow256(front.len()) as int;
        let y = be_value(front) as int;
        assert(pow256(b.len()) == 256 * p);
        assert(be_value(joined) == (x * p + y) * 256 + b.last() as int);
        assert(be_value(b) == y * 256 + b.last() as int);
        assert((x * p + y) * 256 == x * (256 * p) + y * 256) by (nonlinear_arith);
    }
}

/// Joining eight bytes to a sequence shifts its value by one word.
pub proof fn lemma_be_value_append_word(a: Seq<u8>, b: Seq<u8>)
    requires
        b.len() == 8,
    ensures
        be_value(a + b) == be_value(a) * 0x1_0000_0000_0000_0000 + be_value(b),
{
    lemma_be_value_concat(a, b);
    lemma_pow256_values();
}

/// A value spelled in `k` bytes is below `256^k`.
pub proof fn lemma_be_value_bound(bytes: Seq<u8>)
    ensures
        be_value(bytes) < pow256(bytes.len()),
    decreases bytes.len(),
{
    if bytes.len() > 0 {
        lemma_be_value_bound(bytes.drop_last());
    }
}

/// The first powers of `256` that the word and field widths need.
pub proof fn lemma_pow256_values()
    ensures
        pow256(8) == 0x1_0000_0000_0000_0000,
        pow256(16) == 0x1_0000_0000_0000_0000_0000_0000_0000_0000nat,
        pow256(24) == 0x1_0000_0000_0000_0000_0000_0000_0000_0000_0000_0000_0000_0000nat,
        pow256(32) == pow2_256(),
{
    reveal_with_fuel(pow256, 9);
    assert(pow256(8) == 0x1_0000_0000_0000_0000);
    assert(pow256(16) == pow256(8) * 0x1_0000_0000_0000_0000);
    assert(pow256(24) == pow256(16) * 0x1_0000_0000_0000_0000);
    assert(pow256(32) == pow256(24) * 0x1_0000_0000_0000_0000);
}

/// Spelling a value in `len` bytes and reading it back gives the value modulo
/// `256^len`.
pub proof fn lemma_be_bytes_value(value: nat, len: nat)
    ensures
        be_bytes(value, len).len() == len,
        be_value(be_bytes(value, len)) == value % pow256(len),
    decreases len,
{
    if len > 0 {
        let rest = be_bytes(value / 256, (len - 1) as nat);
        lemma_be_bytes_value(value / 256, (len - 1) as nat);
        let whole = rest.push((value % 256) as u8);
        assert(whole.drop_last() =~= rest);
        let p = pow256((len - 1) as nat);
        lemma_pow256_positive((len - 1) as nat);
        vstd::arithmetic::div_mod::lemma_breakdown(value as int, 256, p as int);
    }
}

/// Every power of `256` is positive.
pub proof fn lemma_pow256_positive(k: nat)
    ensures
        pow256(k) > 0,
    decreases k,
{
    if k > 0 {
        lemma_pow256_positive((k - 1) as nat);
    }
}

/// Reading back a spelling of a value that fits gives the same bytes: two
/// sequences of one length with one value are equal.
pub proof fn lemma_be_value_injective(a: Seq<u8>, b: Seq<u8>)
    requires
        a.len() == b.len(),
        be_value(a) == be_value(b),
    ensures
        a == b,
    decreases a.len(),
{
    if a.len() > 0 {
        lemma_be_value_injective(a.drop_last(), b.drop_last());
        assert(a =~= a.drop_last().push(a.last()));
        assert(b =~= b.drop_last().push(b.last()));
    } else {
        assert(a =~= b);
    }
}

/// Reads the eight bytes of `bytes` from `start` on as one word, most
/// significant byte first.
fn load_word(bytes: &[u8; 32], start: usize) -> (w: u64)
    requires
        start + 8 <= 32,
    ensures
        w as nat == be_value(bytes@.subrange(start as int, start + 8)),
{
    let b0: u64 = bytes[start] as u64;
    let b1: u64 = bytes[start + 1] as u64;
    let b2: u64 = bytes[start + 2] as u64;
    let b3: u64 = bytes[start + 3] as u64;
    let b4: u64 = bytes[start + 4] as u64;
    let b5: u64 = bytes[start + 5] as u64;
    let b6: u64 = bytes[start + 6] as u64;
    let b7: u64 = bytes[start + 7] as u64;
    proof {
        let s = bytes@.subrange(start as int, start + 8);
        let s7 = s.drop_last();
        let s6 = s7.drop_last();
        let s5 = s6.drop_last();
        let s4 = s5.drop_last();
        let s3 = s4.drop_last();
        let s2 = s3.drop_last();
        let s1 = s2.drop_last();
        let s0 = s1.drop_last();
        assert(s0.len() == 0);
        assert(be_value(s0) == 0);
        assert(be_value(s1) == b0);
        assert(be_value(s2) == be_value(s1) * 256 + b1);
        assert(be_value(s3) == be_value(s2) * 256 + b2);
        assert(be_value(s4) == be_value(s3) * 256 + b3);
        assert(be_value(s5) == be_value(s4) * 256 + b4);
        assert(be_value(s6) == be_value(s5) * 256 + b5);
        assert(be_value(s7) == be_value(s6) * 256 + b6);
        assert(be_value(s) == be_value(s7) * 256 + b7);
    }
    b0 * 0x0100_0000_0000_0000 + b1 * 0x0001_0000_0000_0000 + b2 * 0x0000_0100_0000_0000 + b3
        * 0x0000_0001_0000_0000 + b4 * 0x0000_0000_0100_0000 + b5 * 0x0000_0000_0001_0000 + b6
        * 0x0000_0000_0000_0100 + b7
}

/// Reads thirty-two bytes as four words: the last eight bytes become the
/// least significant word.
pub fn load_words(bytes: &[u8; 32]) -> (w: [u64; 4])
    ensures
        limbs_value(w) == be_value(bytes@),
{
    let w3: u64 = load_word(bytes, 0);
    let w2: u64 = load_word(bytes, 8);
    let w1: u64 = load_word(bytes, 16);
    let w0: u64 = load_word(bytes, 24);
    proof {
        let s = bytes@;
        let a = s.subrange(0, 8);
        let b = s.subrange(8, 16);
        let c = s.subrange(16, 24);
        let d = s.subrange(24, 32);
        assert(s =~= ((a + b) + c) + d);
        lemma_be_value_append_word(a, b);
        lemma_be_value_append_word(a + b, c);
        lemma_be_value_append_word((a + b) + c, d);
    }
    [w0, w1, w2, w3]
}

/// Spells one word as eight bytes, most significant byte first.
fn store_word(w: u64) -> (out: [u8; 8])
    ensures
        be_value(out@) == w as nat,
{
    let b7: u8 = (w % 256) as u8;
    let w1: u64 = w / 256;
    let b6: u8 = (w1 % 256) as u8;
    let w2: u64 = w1 / 256;
    let b5: u8 = (w2 % 256) as u8;
    let w3: u64 = w2 / 256;
    let b4: u8 = (w3 % 256) as u8;
    let w4: u64 = w3 / 256;
    let b3: u8 = (w4 % 256) as u8;
    let w5: u64 = w4 / 256;
    let b2: u8 = (w5 % 256) as u8;
    let w6: u64 = w5 / 256;
    let b1: u8 = (w6 % 256) as u8;
    let w7: u64 = w6 / 256;
    let b0: u8 = (w7 % 256) as u8;
    let out: [u8; 8] = [b0, b1, b2, b3, b4, b5, b6, b7];
    proof {
        let s = out@;
        let s7 = s.drop_last();
        let s6 = s7.drop_last();
        let s5 = s6.drop_last();
        let s4 = s5.drop_last();
        let s3 = s4.drop_last();
        let s2 = s3.drop_last();
        let s1 = s2.drop_last();
        let s0 = s1.drop_last();
        assert(s0.len() == 0);
        assert(be_value(s0) == 0);
        assert(w7 < 256);
        assert(be_value(s1) == w7);
        assert(be_value(s2) == w6);
        assert(be_value(s3) == w5);
        assert(be_value(s4) == w4);
        assert(be_value(s5) == w3);
        assert(be_value(s6) == w2);
        assert(be_value(s7) == w1);
        assert(be_value(s) == w);
    }
    out
}

/// Spells four words as thirty-two bytes: the least significant word becomes
/// the last eight bytes.
pub fn store_words(w: [u64; 4]) -> (out: [u8; 32])
    ensures
        be_value(out@) == limbs_value(w),
        out@ == be_bytes(limbs_value(w), 32),
{
    let a: [u8; 8] = store_word(w[3]);
    let b: [u8; 8] = store_word(w[2]);
    let c: [u8; 8] = store_word(w[1]);
    let d: [u8; 8] = store_word(w[0]);
    let out: [u8; 32] = [
        a[0], a[1], a[2], a[3], a[4], a[5], a[6], a[7],
        b[0], b[1], b[2], b[3], b[4], b[5], b[6], b[7],
        c[0], c[1], c[2], c[3], c[4], c[5], c[6], c[7],
        d[0], d[1], d[2], d[3], d[4], d[5], d[6], d[7],
    ];
    proof {
        assert(out@ =~= ((a@ + b@) + c@) + d@);
        lemma_be_value_append_word(a@, b@);
        lemma_be_value_append_word(a@ + b@, c@);
        lemma_be_value_append_word((a@ + b@) + c@, d@);
        lemma_be_bytes_value(limbs_value(w), 32);
        lemma_pow256_values();
        lemma_be_value_injective(out@, be_bytes(limbs_value(w), 32));
    }
    out
}

} // verus!
