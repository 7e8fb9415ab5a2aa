//! Scalars: integers modulo the order of a curve's group.
//!
//! A [`Scalar`] is always fully reduced; a [`NonZeroScalar`] is in addition
//! never zero. A [`SecretScalar`] holds a secret: it is not zero when it is
//! made, it is zero once it was wiped, and it is wiped when it is dropped.

use crate::curve::Curve;
use crate::limbs::{be_bytes, be_value, limbs_value, load_words, pow2_256, store_words};
use core::marker::PhantomData;
use elliptic_curve::util::{adc64, sbb64};
use vstd::prelude::*;

verus! {

/// What reduction makes of the integer `l`: `l` itself below the order, and
/// one order less from there on.
pub open spec fn reduce<C: Curve>(l: nat) -> nat {
    if l < C::order() {
        l
    } else {
        (l - C::order()) as nat
    }
}

/// The value of five words, least significant first.
pub open spec fn wide_value(w0: u64, w1: u64, w2: u64, w3: u64, w4: u64) -> nat {
    limbs_value([w0, w1, w2, w3]) + (w4 as nat) * pow2_256()
}

/// An integer in `[0, n)`, held as four 64-bit words.
#[derive(Debug, PartialEq, Eq)]
pub struct Scalar<C: Curve> {
    words: [u64; 4],
    curve: PhantomData<C>,
}

impl<C: Curve> Clone for Scalar<C> {
    fn clone(&self) -> (copy: Self)
        ensures
            copy == *self,
    {
        *self
    }
}

impl<C: Curve> Copy for Scalar<C> {
}

impl<C: Curve> View for Scalar<C> {
    type V = nat;

    closed spec fn view(&self) -> nat {
        limbs_value(self.words)
    }
}

impl<C: Curve> Scalar<C> {
    #[verifier::type_invariant]
    spec fn reduced(self) -> bool {
        limbs_value(self.words) < C::order()
    }

    /// The scalar zero.
    pub fn zero() -> (s: Scalar<C>)
        ensures
            s@ == 0,
    {
        proof {
            C::order_in_range();
        }
        Scalar { words: [0, 0, 0, 0], curve: PhantomData }
    }

    /// The scalar one.
    pub fn one() -> (s: Scalar<C>)
        ensures
            s@ == 1,
    {
        proof {
            C::order_in_range();
        }
        Scalar { words: [1, 0, 0, 0], curve: PhantomData }
    }

    /// Reduces a 256-bit digest, read most significant byte first, into a
    /// scalar: one order is taken off where the digest is not below the
    /// order. The same instructions run whatever the digest holds.
    pub fn from_digest(digest: &[u8; 32]) -> (s: Scalar<C>)
        ensures
            s@ == reduce::<C>(be_value(digest@)),
            s@ < C::order(),
            s@ == be_value(digest@) % C::order(),
    {
        let l: [u64; 4] = load_words(digest);
        let n: [u64; 4] = C::modulus();
        proof {
            C::order_in_range();
            crate::limbs::lemma_be_value_bound(digest@);
            crate::limbs::lemma_pow256_values();
        }
        let s: Scalar<C> = sub_inner(l[0], l[1], l[2], l[3], 0, n[0], n[1], n[2], n[3], 0);
        proof {
            lemma_reduce_is_remainder::<C>(be_value(digest@));
        }
        s
    }

    /// Decodes a scalar from thirty-two bytes, most significant first.
    /// Values that are not below the order are refused.
    pub fn from_repr(bytes: &[u8; 32]) -> (res: Option<Scalar<C>>)
        ensures
            res is Some <==> be_value(bytes@) < C::order(),
            res matches Some(s) ==> s@ == be_value(bytes@),
    {
        let w: [u64; 4] = load_words(bytes);
        let n: [u64; 4] = C::modulus();
        let (_d0, borrow): (u64, u64) = sbb64(w[0], n[0], 0);
        let (_d1, borrow): (u64, u64) = sbb64(w[1], n[1], borrow);
        let (_d2, borrow): (u64, u64) = sbb64(w[2], n[2], borrow);
        let (_d3, borrow): (u64, u64) = sbb64(w[3], n[3], borrow);
        if borrow != 0 {
            Some(Scalar { words: w, curve: PhantomData })
        } else {
            None
        }
    }

    /// The scalar as thirty-two bytes, most significant first.
    pub fn to_bytes(&self) -> (out: [u8; 32])
        ensures
            out@ == be_bytes(self@, 32),
            be_value(out@) == self@,
            self@ < C::order(),
    {
        proof {
            use_type_invariant(self);
        }
        store_words(self.words)
    }

    /// Whether the scalar is zero, decided without a branch on its words.
    pub fn is_zero(&self) -> (z: bool)
        ensures
            z <==> self@ == 0,
            self@ < C::order(),
    {
        proof {
            use_type_invariant(self);
        }
        let w0: u64 = self.words[0];
        let w1: u64 = self.words[1];
        let w2: u64 = self.words[2];
        let w3: u64 = self.words[3];
        let any: u64 = w0 | w1 | w2 | w3;
        assert(any == 0 <==> (w0 == 0 && w1 == 0 && w2 == 0 && w3 == 0)) by (bit_vector)
            requires
                any == w0 | w1 | w2 | w3,
        ;
        any == 0
    }

    /// Overwrites the words that held the value with zeros.
    pub fn zeroize(&mut self)
        ensures
            final(self)@ == 0,
        opens_invariants none
        no_unwind
    {
        proof {
            C::order_in_range();
        }
        wipe_words(&mut self.words);
    }
}

/// An integer in `[1, n)`.
///
/// Both halves of a signature are of this type: a zero in either place
/// would void the scheme.
#[derive(Debug, PartialEq, Eq)]
pub struct NonZeroScalar<C: Curve> {
    scalar: Scalar<C>,
}

impl<C: Curve> Clone for NonZeroScalar<C> {
    fn clone(&self) -> (copy: Self)
        ensures
            copy == *self,
    {
        *self
    }
}

impl<C: Curve> Copy for NonZeroScalar<C> {
}

impl<C: Curve> View for NonZeroScalar<C> {
    type V = nat;

    closed spec fn view(&self) -> nat {
        self.scalar@
    }
}

impl<C: Curve> NonZeroScalar<C> {
    #[verifier::type_invariant]
    spec fn non_zero(self) -> bool {
        0 < limbs_value(self.scalar.words) < C::order()
    }

    /// Accepts a scalar unless it is zero.
    pub fn new(scalar: Scalar<C>) -> (res: Option<NonZeroScalar<C>>)
        ensures
            res is Some <==> scalar@ != 0,
            res matches Some(s) ==> s@ == scalar@,
    {
        proof {
            use_type_invariant(&scalar);
        }
        if scalar.is_zero() {
            None
        } else {
            Some(NonZeroScalar { scalar })
        }
    }

    /// Decodes a non-zero scalar from thirty-two bytes, most significant
    /// first. Zero and values that are not below the order are refused.
    pub fn from_repr(bytes: &[u8; 32]) -> (res: Option<NonZeroScalar<C>>)
        ensures
            res is Some <==> 0 < be_value(bytes@) < C::order(),
            res matches Some(s) ==> s@ == be_value(bytes@),
    {
        match Scalar::from_repr(bytes) {
            Some(scalar) => NonZeroScalar::new(scalar),
            None => None,
        }
    }

    /// The scalar one.
    pub fn one() -> (s: NonZeroScalar<C>)
        ensures
            s@ == 1,
    {
        proof {
            C::order_in_range();
        }
        NonZeroScalar { scalar: Scalar::one() }
    }

    /// The same value as a plain scalar.
    pub fn as_scalar(&self) -> (s: Scalar<C>)
        ensures
            s@ == self@,
            0 < self@ < C::order(),
    {
        proof {
            use_type_invariant(self);
        }
        self.scalar
    }

    /// The scalar as thirty-two bytes, most significant first.
    pub fn to_bytes(&self) -> (out: [u8; 32])
        ensures
            out@ == be_bytes(self@, 32),
            be_value(out@) == self@,
            0 < self@ < C::order(),
    {
        proof {
            use_type_invariant(self);
        }
        self.scalar.to_bytes()
    }
}

/// A secret scalar, such as a signing key or a nonce.
///
/// It lies in `[1, n)` when it is made. Wiping it leaves zero, a value that
/// no secret has, and dropping it wipes it.
pub struct SecretScalar<C: Curve> {
    scalar: Scalar<C>,
}

impl<C: Curve> View for SecretScalar<C> {
    type V = nat;

    closed spec fn view(&self) -> nat {
        self.scalar@
    }
}

impl<C: Curve> SecretScalar<C> {
    /// Decodes a secret from thirty-two bytes, most significant first. Zero
    /// and values that are not below the order are refused.
    pub fn from_repr(bytes: &[u8; 32]) -> (res: Option<SecretScalar<C>>)
        ensures
            res is Some <==> 0 < be_value(bytes@) < C::order(),
            res matches Some(s) ==> s@ == be_value(bytes@),
    {
        match Scalar::from_repr(bytes) {
            Some(scalar) => {
                if scalar.is_zero() {
                    None
                } else {
                    Some(SecretScalar { scalar })
                }
            },
            None => None,
        }
    }

    /// A secret with the value of the given scalar.
    pub fn from_nonzero_scalar(scalar: NonZeroScalar<C>) -> (s: SecretScalar<C>)
        ensures
            s@ == scalar@,
            0 < s@ < C::order(),
    {
        SecretScalar { scalar: scalar.as_scalar() }
    }

    /// The secret where it is held, as a scalar.
    pub fn as_scalar(&self) -> (s: &Scalar<C>)
        ensures
            s@ == self@,
            self@ < C::order(),
    {
        proof {
            use_type_invariant(&self.scalar);
        }
        &self.scalar
    }

    /// The secret as thirty-two bytes, most significant first.
    pub fn to_bytes(&self) -> (out: [u8; 32])
        ensures
            out@ == be_bytes(self@, 32),
            be_value(out@) == self@,
            self@ < C::order(),
    {
        self.scalar.to_bytes()
    }

    /// Whether the secret was wiped.
    pub fn is_wiped(&self) -> (wiped: bool)
        ensures
            wiped <==> self@ == 0,
    {
        self.scalar.is_zero()
    }

    /// Overwrites the words that held the secret with zeros.
    pub fn zeroize(&mut self)
        ensures
            final(self)@ == 0,
        opens_invariants none
        no_unwind
    {
        self.scalar.zeroize();
    }
}

impl<C: Curve> Drop for SecretScalar<C> {
    fn drop(&mut self)
        ensures
            final(self)@ == 0,
        opens_invariants none
        no_unwind
    {
        self.zeroize();
    }
}

/// `zeroize::Zeroize::zeroize` on an array of words sets every word to zero,
/// with volatile writes that the compiler does not remove.
#[verifier::external_body]
fn wipe_words(words: &mut [u64; 4])
    ensures
        final(words)@ == seq![0u64, 0u64, 0u64, 0u64],
    opens_invariants none
    no_unwind
{
    elliptic_curve::zeroize::Zeroize::zeroize(words);
}

/// Reduction is correct: a 256-bit integer below the order is kept, any
/// other loses the order once, and either way the result is the remainder
/// modulo the order.
pub proof fn lemma_reduce_is_remainder<C: Curve>(l: nat)
    requires
        l < pow2_256(),
    ensures
        l < C::order() ==> reduce::<C>(l) == l,
        C::order() <= l ==> reduce::<C>(l) == l - C::order(),
        reduce::<C>(l) == l % C::order(),
        reduce::<C>(l) < C::order(),
{
    C::order_in_range();
    let n = C::order() as int;
    if l < C::order() {
        vstd::arithmetic::div_mod::lemma_small_mod(l, C::order());
    } else {
        vstd::arithmetic::div_mod::lemma_small_mod((l - n) as nat, C::order());
        vstd::arithmetic::div_mod::lemma_mod_add_multiples_vanish(l - n, n);
    }
}

/// Subtracts the five-word integer `r` from the five-word integer `l` with a
/// borrow chain, then adds the order back under a mask when the chain
/// borrowed. No branch depends on the operands.
fn sub_inner<C: Curve>(
    l0: u64,
    l1: u64,
    l2: u64,
    l3: u64,
    l4: u64,
    r0: u64,
    r1: u64,
    r2: u64,
    r3: u64,
    r4: u64,
) -> (s: Scalar<C>)
    requires
        wide_value(l0, l1, l2, l3, l4) < wide_value(r0, r1, r2, r3, r4) + C::order(),
        wide_value(r0, r1, r2, r3, r4) <= wide_value(l0, l1, l2, l3, l4) + C::order(),
    ensures
        s@ == (if wide_value(l0, l1, l2, l3, l4) >= wide_value(r0, r1, r2, r3, r4) {
            wide_value(l0, l1, l2, l3, l4) - wide_value(r0, r1, r2, r3, r4)
        } else {
            wide_value(l0, l1, l2, l3, l4) + C::order() - wide_value(r0, r1, r2, r3, r4)
        }),
{
    let (w0, b0): (u64, u64) = sub_step(l0, r0, 0);
    let (w1, b1): (u64, u64) = sub_step(l1, r1, b0);
    let (w2, b2): (u64, u64) = sub_step(l2, r2, b1);
    let (w3, b3): (u64, u64) = sub_step(l3, r3, b2);
    let (w4, borrow): (u64, u64) = sub_step(l4, r4, b3);

    let ghost diff: int = wide_value(l0, l1, l2, l3, l4) - wide_value(r0, r1, r2, r3, r4);
    let ghost w: int = limbs_value([w0, w1, w2, w3]) as int;
    proof {
        C::order_in_range();
        lemma_borrow_chain(
            [l0, l1, l2, l3],
            l4,
            [r0, r1, r2, r3],
            r4,
            [w0, w1, w2, w3],
            w4,
            [borrowed(b0), borrowed(b1), borrowed(b2), borrowed(b3), borrowed(borrow)],
        );
        lemma_borrow_decides(diff, w, w4 as int, borrowed(borrow), C::order() as int);
    }

    let n: [u64; 4] = C::modulus();
    let m0: u64 = n[0] & borrow;
    let m1: u64 = n[1] & borrow;
    let m2: u64 = n[2] & borrow;
    let m3: u64 = n[3] & borrow;
    let ghost m: int = limbs_value([m0, m1, m2, m3]) as int;
    proof {
        lemma_mask(n[0], borrow);
        lemma_mask(n[1], borrow);
        lemma_mask(n[2], borrow);
        lemma_mask(n[3], borrow);
        assert(borrow == 0 ==> m == 0);
        assert(borrow != 0 ==> m == C::order()) by {
            if borrow != 0 {
                assert([m0, m1, m2, m3] =~= n);
            }
        }
    }

    let (v0, k0): (u64, u64) = add_step(w0, m0, 0);
    let (v1, k1): (u64, u64) = add_step(w1, m1, k0);
    let (v2, k2): (u64, u64) = add_step(w2, m2, k1);
    let (v3, k3): (u64, u64) = add_step(w3, m3, k2);
    proof {
        lemma_carry_chain([w0, w1, w2, w3], [m0, m1, m2, m3], [v0, v1, v2, v3], [k0, k1, k2, k3]);
        lemma_add_back(
            diff,
            w,
            m,
            limbs_value([v0, v1, v2, v3]) as int,
            k3 as int,
            C::order() as int,
        );
    }

    Scalar { words: [v0, v1, v2, v3], curve: PhantomData }
}

/// `1` for a borrow word that is all ones, `0` for one that is zero.
spec fn borrowed(borrow: u64) -> int {
    if borrow == 0 {
        0
    } else {
        1
    }
}

/// One link of a borrow chain: `a - b`, less one where the link before it
/// borrowed. The borrow is handed on as all ones or as zero.
fn sub_step(a: u64, b: u64, borrow: u64) -> (r: (u64, u64))
    requires
        borrow == 0 || borrow == 0xffff_ffff_ffff_ffffu64,
    ensures
        r.1 == 0 || r.1 == 0xffff_ffff_ffff_ffffu64,
        a - b - borrowed(borrow) == r.0 - borrowed(r.1) * 0x1_0000_0000_0000_0000,
{
    sbb64(a, b, borrow)
}

/// One link of a carry chain: `a + b`, plus what the link before it carried.
fn add_step(a: u64, b: u64, carry: u64) -> (r: (u64, u64))
    ensures
        a + b + carry == r.0 + r.1 * 0x1_0000_0000_0000_0000,
{
    adc64(a, b, carry)
}

/// Word by word, a borrow chain computes the difference of two five-word
/// integers up to the borrow that leaves the top word.
proof fn lemma_borrow_chain(
    l: [u64; 4],
    l4: u64,
    r: [u64; 4],
    r4: u64,
    w: [u64; 4],
    w4: u64,
    c: [int; 5],
)
    requires
        l[0] - r[0] == w[0] - c[0] * 0x1_0000_0000_0000_0000,
        l[1] - r[1] - c[0] == w[1] - c[1] * 0x1_0000_0000_0000_0000,
        l[2] - r[2] - c[1] == w[2] - c[2] * 0x1_0000_0000_0000_0000,
        l[3] - r[3] - c[2] == w[3] - c[3] * 0x1_0000_0000_0000_0000,
        l4 - r4 - c[3] == w4 - c[4] * 0x1_0000_0000_0000_0000,
    ensures
        limbs_value(l) + l4 * pow2_256() - (limbs_value(r) + r4 * pow2_256()) == limbs_value(w) + (
        w4 - c[4] * 0x1_0000_0000_0000_0000) * pow2_256(),
{
}

/// Word by word, a carry chain computes the sum of two four-word integers up
/// to the carry that leaves the top word.
proof fn lemma_carry_chain(w: [u64; 4], m: [u64; 4], v: [u64; 4], k: [u64; 4])
    requires
        w[0] + m[0] == v[0] + k[0] * 0x1_0000_0000_0000_0000,
        w[1] + m[1] + k[0] == v[1] + k[1] * 0x1_0000_0000_0000_0000,
        w[2] + m[2] + k[1] == v[2] + k[2] * 0x1_0000_0000_0000_0000,
        w[3] + m[3] + k[2] == v[3] + k[3] * 0x1_0000_0000_0000_0000,
    ensures
        limbs_value(v) + k[3] * pow2_256() == limbs_value(w) + limbs_value(m),
{
}

/// Masking with all ones keeps a word, masking with zero clears it.
proof fn lemma_mask(x: u64, mask: u64)
    ensures
        mask == 0 ==> x & mask == 0,
        mask == 0xffff_ffff_ffff_ffffu64 ==> x & mask == x,
{
    assert(x & 0 == 0) by (bit_vector);
    assert(x & 0xffff_ffff_ffff_ffffu64 == x) by (bit_vector);
}

/// What the borrow that leaves a chain says: without it the words hold the
/// difference, with it they hold the difference plus `2^256`, and the
/// difference is negative.
proof fn lemma_borrow_decides(diff: int, w: int, w4: int, c4: int, n: int)
    requires
        diff == w + (w4 - c4 * 0x1_0000_0000_0000_0000) * pow2_256(),
        0 <= w < pow2_256(),
        0 <= w4 < 0x1_0000_0000_0000_0000,
        c4 == 0 || c4 == 1,
        -n <= diff < n,
        0 < n < pow2_256(),
    ensures
        c4 == 0 ==> w == diff && diff >= 0,
        c4 == 1 ==> w == diff + pow2_256() && diff < 0,
{
    if c4 == 0 {
        assert(w4 == 0) by (nonlinear_arith)
            requires
                diff == w + w4 * pow2_256(),
                0 <= w,
                0 <= w4,
                diff < pow2_256(),
        ;
    } else {
        let top = 0xffff_ffff_ffff_ffffint;
        assert(w4 == top) by (nonlinear_arith)
            requires
                diff == w + (w4 - top - 1) * pow2_256(),
                w < pow2_256(),
                w4 <= top,
                top == 0xffff_ffff_ffff_ffffint,
                diff > -pow2_256(),
        ;
    }
}

/// What adding the masked order gives: the difference where it was not
/// negative, the difference plus the order where it was.
proof fn lemma_add_back(diff: int, w: int, m: int, v: int, k3: int, n: int)
    requires
        v + k3 * pow2_256() == w + m,
        0 <= v < pow2_256(),
        0 <= k3,
        -n <= diff < n,
        0 < n < pow2_256(),
        (w == diff && diff >= 0 && m == 0) || (w == diff + pow2_256() && diff < 0 && m == n),
    ensures
        v == (if diff >= 0 {
            diff
        } else {
            diff + n
        }),
{
    if diff >= 0 {
        assert(k3 == 0) by (nonlinear_arith)
            requires
                v + k3 * pow2_256() == diff,
                0 <= v,
                0 <= k3,
                diff < pow2_256(),
        ;
    } else {
        assert(k3 == 1) by (nonlinear_arith)
            requires
                v + k3 * pow2_256() == diff + n + pow2_256(),
                0 <= v < pow2_256(),
                0 <= k3,
                0 <= diff + n < pow2_256(),
        ;
    }
}

} // verus!
