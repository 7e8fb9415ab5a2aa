//! The signing and verification equations, over the integers modulo the
//! group order.
//!
//! A point of the group is written here as the multiple of the generator
//! `G` that it is: the public point of the secret scalar `d` is `d * G`, and
//! the verifier's point `u1 * G + u2 * (d * G)` is `(u1 + u2 * d) * G`.
//! Inverses are given, not computed: the equations hold for any inverse
//! that a backend finds.
//!
//! A backend follows the equations for an x-coordinate map `x_of`, which
//! sends `m` to the x-coordinate of `m * G`, and a map `multiple_of`, which
//! sends a public key to the multiple of `G` that it is. Of a backend that
//! does, the laws here show that it accepts what it signed, and that it
//! accepts a signature whose `s` was changed only where two multiples of the
//! generator share an x-coordinate modulo the order. The negated point is
//! such a multiple, so no law can say that every changed `s` is rejected.

use crate::curve::Curve;
use crate::error::Error;
use crate::hazmat::{
    backend_multiplies, backend_signs, backend_verifies, PointArithmetic, SignPrimitive,
    VerifyPrimitive,
};
use crate::limbs::be_value;
use crate::rfc6979::{drbg_init, lemma_nonce_in_range, nonce, MAX_ATTEMPTS};
use crate::scalar::reduce;
use crate::sec1::PublicKey;
use crate::sign::signs;
use crate::signature::Signature;
use crate::verify::verifies;
use vstd::arithmetic::div_mod::{
    lemma_add_mod_noop, lemma_mul_mod_noop_general, lemma_small_mod,
};
use vstd::prelude::*;

verus! {

/// Whether `b` is the inverse of `a` modulo the order.
#[verifier::opaque]
pub open spec fn is_inverse<C: Curve>(a: nat, b: nat) -> bool {
    b < C::order() && (a * b) % C::order() == 1
}

/// The `s` half of a signature: `(z + r * d) / k`, for the secret scalar
/// `d`, the message scalar `z`, the `r` half, and the inverse `k_inv` of the
/// ephemeral scalar.
#[verifier::opaque]
pub open spec fn signature_s<C: Curve>(d: nat, k_inv: nat, z: nat, r: nat) -> nat {
    (k_inv * (z + r * d)) % C::order()
}

/// The multiple of the generator that the verifier arrives at:
/// `u1 + u2 * q` with `u1 = z / s` and `u2 = r / s`, for the public point
/// `q * G` and the inverse `s_inv` of the `s` half.
#[verifier::opaque]
pub open spec fn verification_multiple<C: Curve>(q: nat, z: nat, r: nat, s_inv: nat) -> nat {
    ((z * s_inv) % C::order() + ((r * s_inv) % C::order()) * q) % C::order()
}

/// Verification undoes signing. For a signature over `z` made with the
/// secret scalar `d` and the ephemeral scalar `k`, the verifier that holds
/// the public point `d * G` arrives at `k * G`: the very point from whose
/// x-coordinate the signer took `r`. So the verifier compares `r` with
/// itself, and accepts.
pub proof fn lemma_verification_recovers_nonce<C: Curve>(
    d: nat,
    k: nat,
    z: nat,
    r: nat,
    k_inv: nat,
    s_inv: nat,
)
    requires
        0 < k < C::order(),
        is_inverse::<C>(k, k_inv),
        is_inverse::<C>(signature_s::<C>(d, k_inv, z, r), s_inv),
    ensures
        verification_multiple::<C>(d, z, r, s_inv) == k,
{
    reveal(is_inverse);
    reveal(signature_s);
    reveal(verification_multiple);
    let n = C::order() as int;
    let (d, k, z, r, ki, w) = (d as int, k as int, z as int, r as int, k_inv as int, s_inv as int);
    let t = z + r * d;
    let s = (ki * t) % n;
    // k * s is congruent to t.
    assert((k * s) % n == t % n) by {
        lemma_mul_mod_noop_general(k, ki * t, n);
        assert(k * (ki * t) == (k * ki) * t) by (nonlinear_arith);
        lemma_mul_mod_noop_general(k * ki, t, n);
        assert(1 * t == t);
    }
    // w * t is congruent to k.
    assert((w * t) % n == k) by {
        lemma_mul_mod_noop_general(w, t, n);
        lemma_mul_mod_noop_general(w, k * s, n);
        assert(w * (k * s) == (s * w) * k) by (nonlinear_arith);
        lemma_mul_mod_noop_general(s * w, k, n);
        assert(1 * k == k);
        lemma_small_mod(k as nat, C::order());
    }
    // The verifier's sum is w * t, taken apart.
    let u1 = (z * w) % n;
    let u2 = (r * w) % n;
    assert((u1 + u2 * d) % n == (w * t) % n) by {
        lemma_mul_mod_noop_general(r * w, d, n);
        lemma_add_mod_noop(z * w, (r * w) * d, n);
        lemma_add_mod_noop(u1, u2 * d, n);
        lemma_small_mod(u1 as nat, C::order());
        assert(z * w + (r * w) * d == w * (z + r * d)) by (nonlinear_arith);
    }
}

/// Negating `s` negates the verifier's point. The negated point has the same
/// x-coordinate, so `(r, n - s)` is accepted wherever `(r, s)` is: a
/// signature is not the only one for its message.
pub proof fn lemma_negated_s_negates_the_multiple<C: Curve>(
    q: nat,
    z: nat,
    r: nat,
    s: nat,
    s_inv: nat,
)
    requires
        0 < s < C::order(),
        is_inverse::<C>(s, s_inv),
    ensures
        is_inverse::<C>((C::order() - s) as nat, (C::order() - s_inv) as nat),
        (verification_multiple::<C>(q, z, r, s_inv) + verification_multiple::<C>(
            q,
            z,
            r,
            (C::order() - s_inv) as nat,
        )) % C::order() == 0,
{
    reveal(is_inverse);
    reveal(verification_multiple);
    let n = C::order() as int;
    let (q, z, r, s, w) = (q as int, z as int, r as int, s as int, s_inv as int);
    assert(w != 0) by {
        assert(s * 0 == 0);
        lemma_small_mod(0, C::order());
    }
    let v = n - w;
    assert(((n - s) * v) % n == 1) by {
        assert((n - s) * (n - w) == n * (n - s - w) + s * w) by (nonlinear_arith);
        vstd::arithmetic::div_mod::lemma_mod_multiples_vanish(n - s - w, s * w, n);
    }
    let x = z * w + (r * w) * q;
    let y = z * v + (r * v) * q;
    let a = ((z * w) % n + ((r * w) % n) * q) % n;
    let b = ((z * v) % n + ((r * v) % n) * q) % n;
    assert(a == x % n) by {
        lemma_mul_mod_noop_general(r * w, q, n);
        lemma_add_mod_noop(z * w, (r * w) * q, n);
        lemma_add_mod_noop((z * w) % n, ((r * w) % n) * q, n);
        lemma_small_mod(((z * w) % n) as nat, C::order());
    }
    assert(b == y % n) by {
        lemma_mul_mod_noop_general(r * v, q, n);
        lemma_add_mod_noop(z * v, (r * v) * q, n);
        lemma_add_mod_noop((z * v) % n, ((r * v) % n) * q, n);
        lemma_small_mod(((z * v) % n) as nat, C::order());
    }
    assert((a + b) % n == 0) by {
        lemma_add_mod_noop(x, y, n);
        assert(z * w + z * v == z * n) by (nonlinear_arith)
            requires
                v == n - w,
        ;
        assert((r * w) * q + (r * v) * q == (r * q) * n) by (nonlinear_arith)
            requires
                v == n - w,
        ;
        assert(x + y == n * (z + r * q)) by (nonlinear_arith)
            requires
                x + y == z * n + (r * q) * n,
        ;
        vstd::arithmetic::div_mod::lemma_mod_multiples_vanish(z + r * q, 0, n);
    }
}

/// The verifier's multiple, times `s`, is `z + r * q` again.
proof fn lemma_multiple_times_s<C: Curve>(q: nat, z: nat, r: nat, s: nat, s_inv: nat)
    requires
        is_inverse::<C>(s, s_inv),
    ensures
        (verification_multiple::<C>(q, z, r, s_inv) * s) % C::order() == (z + r * q) % C::order(),
{
    reveal(is_inverse);
    reveal(verification_multiple);
    C::order_in_range();
    let n = C::order() as int;
    let (q, z, r, s, w) = (q as int, z as int, r as int, s as int, s_inv as int);
    let t = z + r * q;
    let m = ((z * w) % n + ((r * w) % n) * q) % n;
    assert(m == (t * w) % n) by {
        lemma_mul_mod_noop_general(r * w, q, n);
        lemma_add_mod_noop(z * w, (r * w) * q, n);
        lemma_add_mod_noop((z * w) % n, ((r * w) % n) * q, n);
        lemma_small_mod(((z * w) % n) as nat, C::order());
        assert(z * w + (r * w) * q == t * w) by (nonlinear_arith)
            requires
                t == z + r * q,
        ;
    }
    assert((m * s) % n == t % n) by {
        lemma_mul_mod_noop_general(t * w, s, n);
        assert((t * w) * s == t * (s * w)) by (nonlinear_arith);
        lemma_mul_mod_noop_general(t, s * w, n);
        assert(t * 1 == t);
    }
}

/// A changed `s` changes the verifier's point. So a signature whose `s` was
/// tampered with is accepted only where another multiple of the generator
/// has the x-coordinate `r` as well, as the negated point has.
///
/// The verifier's multiple must have an inverse modulo the order, as every
/// non-zero scalar has when the order is prime.
pub proof fn lemma_changed_s_changes_the_multiple<C: Curve>(
    q: nat,
    z: nat,
    r: nat,
    s: nat,
    s_inv: nat,
    changed: nat,
    changed_inv: nat,
    multiple_inv: nat,
)
    requires
        s < C::order(),
        changed < C::order(),
        changed != s,
        is_inverse::<C>(s, s_inv),
        is_inverse::<C>(changed, changed_inv),
        is_inverse::<C>(verification_multiple::<C>(q, z, r, s_inv), multiple_inv),
    ensures
        verification_multiple::<C>(q, z, r, changed_inv) != verification_multiple::<C>(
            q,
            z,
            r,
            s_inv,
        ),
{
    let m = verification_multiple::<C>(q, z, r, s_inv);
    let m2 = verification_multiple::<C>(q, z, r, changed_inv);
    if m2 == m {
        lemma_multiple_times_s::<C>(q, z, r, s, s_inv);
        lemma_multiple_times_s::<C>(q, z, r, changed, changed_inv);
        reveal(is_inverse);
        let n = C::order() as int;
        let (a, b, v, mi) = (s as int, changed as int, m as int, multiple_inv as int);
        // m * s and m * changed are congruent; so are s and changed.
        assert((mi * (v * a)) % n == (mi * (v * b)) % n) by {
            lemma_mul_mod_noop_general(mi, v * a, n);
            lemma_mul_mod_noop_general(mi, v * b, n);
        }
        assert((mi * (v * a)) % n == a) by {
            assert(mi * (v * a) == (v * mi) * a) by (nonlinear_arith);
            lemma_mul_mod_noop_general(v * mi, a, n);
            assert(1 * a == a);
            lemma_small_mod(s, C::order());
        }
        assert((mi * (v * b)) % n == b) by {
            assert(mi * (v * b) == (v * mi) * b) by (nonlinear_arith);
            lemma_mul_mod_noop_general(v * mi, b, n);
            assert(1 * b == b);
            lemma_small_mod(changed, C::order());
        }
        assert(a == b);
    }
}

/// Whether the verifier accepts: its point is not the identity, and the
/// x-coordinate of its point is `r` modulo the order.
pub open spec fn accepts<C: Curve>(
    x_of: spec_fn(nat) -> nat,
    q: nat,
    z: nat,
    r: nat,
    s_inv: nat,
) -> bool {
    let m = verification_multiple::<C>(q, z, r, s_inv);
    m != 0 && x_of(m) % C::order() == r
}

/// Whether every signature that the backend `B` returns is made by the
/// signing equations: `r` is the x-coordinate of `k * G` modulo the order,
/// and `s` is `(z + r * d) / k`.
pub open spec fn signs_by_the_equations<B: SignPrimitive>(x_of: spec_fn(nat) -> nat) -> bool {
    forall|d: nat, k: nat, z: nat, signature: Signature<B::Curve>| #[trigger]
        backend_signs::<B>(d, k, z, Ok(signature)) ==> exists|k_inv: nat|
            {
                &&& #[trigger] is_inverse::<B::Curve>(k, k_inv)
                &&& signature@.0 == x_of(k) % B::Curve::order()
                &&& signature@.1 == signature_s::<B::Curve>(d, k_inv, z, signature@.0)
            }
}

/// Whether the backend `B` accepts exactly the signatures that the
/// verification equation accepts.
pub open spec fn verifies_by_the_equations<B: VerifyPrimitive>(
    x_of: spec_fn(nat) -> nat,
    multiple_of: spec_fn(PublicKey) -> nat,
) -> bool {
    forall|key: PublicKey, z: nat, r: nat, s: nat, s_inv: nat, outcome: Result<(), Error>|
        #[trigger] backend_verifies::<B>(key, z, (r, s), outcome) && #[trigger] is_inverse::<
            B::Curve,
        >(s, s_inv) ==> (outcome is Ok <==> accepts::<B::Curve>(
            x_of,
            multiple_of(key),
            z,
            r,
            s_inv,
        ))
}

/// Whether the public key that the backend `B` returns for a scalar is that
/// multiple of the generator.
pub open spec fn multiplies_the_generator<B: PointArithmetic>(
    multiple_of: spec_fn(PublicKey) -> nat,
) -> bool {
    forall|d: nat, key: PublicKey| #[trigger]
        backend_multiplies::<B>(d, key) ==> multiple_of(key) == d
}

/// A signature verifies under the key that made it. Where a backend follows
/// the equations, whatever a signing key signed, with or without additional
/// data in the nonce, its verification key accepts for the same digest.
///
/// The `s` half must have an inverse modulo the order, as every non-zero
/// scalar has when the order is prime.
pub proof fn lemma_signature_verifies<B: SignPrimitive + VerifyPrimitive + PointArithmetic>(
    x_of: spec_fn(nat) -> nat,
    multiple_of: spec_fn(PublicKey) -> nat,
    secret: nat,
    digest: Seq<u8>,
    additional: Seq<u8>,
    signature: Signature<B::Curve>,
    s_inv: nat,
    key: PublicKey,
    verdict: Result<(), Error>,
)
    requires
        signs_by_the_equations::<B>(x_of),
        verifies_by_the_equations::<B>(x_of, multiple_of),
        multiplies_the_generator::<B>(multiple_of),
        signs::<B>(secret, digest, additional, Ok(signature)),
        backend_multiplies::<B>(secret, key),
        is_inverse::<B::Curve>(signature@.1, s_inv),
        verifies::<B>(key, digest, signature@, verdict),
    ensures
        verdict == Ok::<(), Error>(()),
{
    let z = reduce::<B::Curve>(be_value(digest));
    let (r, s) = signature@;
    // What the signer did.
    let found = nonce::<B::Curve>(secret, digest, additional);
    assert(found is Some);
    let k = found->0;
    lemma_nonce_in_range::<B::Curve>(
        drbg_init::<B::Curve>(
            crate::limbs::be_bytes(secret, 32),
            crate::limbs::be_bytes(reduce::<B::Curve>(be_value(digest)), 32),
            additional,
        ),
        MAX_ATTEMPTS as nat,
    );
    let signed = choose|outcome: Result<Signature<B::Curve>, Error>|
        #[trigger] backend_signs::<B>(secret, k, z, outcome) && Ok::<Signature<B::Curve>, Error>(
            signature,
        ) == crate::hazmat::opaque_signing(outcome);
    assert(signed == Ok::<Signature<B::Curve>, Error>(signature));
    assert(backend_signs::<B>(secret, k, z, Ok(signature)));
    let k_inv = choose|k_inv: nat|
        {
            &&& #[trigger] is_inverse::<B::Curve>(k, k_inv)
            &&& r == x_of(k) % B::Curve::order()
            &&& s == signature_s::<B::Curve>(secret, k_inv, z, r)
        };
    lemma_verification_recovers_nonce::<B::Curve>(secret, k, z, r, k_inv, s_inv);
    // What the verifier does.
    let checked = choose|outcome: Result<(), Error>|
        #[trigger] backend_verifies::<B>(key, z, (r, s), outcome) && verdict
            == crate::hazmat::opaque_verification(outcome);
    assert(backend_verifies::<B>(key, z, (r, s), checked));
    assert(multiple_of(key) == secret);
    assert(accepts::<B::Curve>(x_of, multiple_of(key), z, r, s_inv));
    assert(checked is Ok);
}

/// Tampering with `s` is rejected unless the curve itself lets it pass.
/// Where a backend follows the equations and a verification key accepts
/// `(r, s)`, it accepts `(r, changed)` only where the verifier arrives at
/// another multiple of the generator whose x-coordinate is `r` as well.
///
/// The two `s` halves and the verifier's multiple must have inverses modulo
/// the order, as every non-zero scalar has when the order is prime.
pub proof fn lemma_tampered_s_needs_another_point<B: VerifyPrimitive>(
    x_of: spec_fn(nat) -> nat,
    multiple_of: spec_fn(PublicKey) -> nat,
    key: PublicKey,
    digest: Seq<u8>,
    r: nat,
    s: nat,
    s_inv: nat,
    changed: nat,
    changed_inv: nat,
    multiple_inv: nat,
    verdict: Result<(), Error>,
)
    requires
        verifies_by_the_equations::<B>(x_of, multiple_of),
        verifies::<B>(key, digest, (r, s), Ok(())),
        verifies::<B>(key, digest, (r, changed), verdict),
        s < B::Curve::order(),
        changed < B::Curve::order(),
        changed != s,
        is_inverse::<B::Curve>(s, s_inv),
        is_inverse::<B::Curve>(changed, changed_inv),
        is_inverse::<B::Curve>(
            verification_multiple::<B::Curve>(
                multiple_of(key),
                reduce::<B::Curve>(be_value(digest)),
                r,
                s_inv,
            ),
            multiple_inv,
        ),
    ensures
        verdict is Ok ==> {
            let z = reduce::<B::Curve>(be_value(digest));
            let first = verification_multiple::<B::Curve>(multiple_of(key), z, r, s_inv);
            let second = verification_multiple::<B::Curve>(multiple_of(key), z, r, changed_inv);
            &&& second != first
            &&& x_of(first) % B::Curve::order() == r
            &&& x_of(second) % B::Curve::order() == r
        },
{
    let z = reduce::<B::Curve>(be_value(digest));
    let q = multiple_of(key);
    lemma_changed_s_changes_the_multiple::<B::Curve>(
        q,
        z,
        r,
        s,
        s_inv,
        changed,
        changed_inv,
        multiple_inv,
    );
    let accepted = choose|outcome: Result<(), Error>|
        #[trigger] backend_verifies::<B>(key, z, (r, s), outcome) && Ok::<(), Error>(())
            == crate::hazmat::opaque_verification(outcome);
    assert(backend_verifies::<B>(key, z, (r, s), accepted));
    assert(accepts::<B::Curve>(x_of, q, z, r, s_inv));
    if verdict is Ok {
        let checked = choose|outcome: Result<(), Error>|
            #[trigger] backend_verifies::<B>(key, z, (r, changed), outcome) && verdict
                == crate::hazmat::opaque_verification(outcome);
        assert(backend_verifies::<B>(key, z, (r, changed), checked));
        assert(accepts::<B::Curve>(x_of, q, z, r, changed_inv));
    }
}

/// Tampering with `r` is rejected unless the curve itself lets it pass.
/// Where a backend follows the equations, it accepts `(changed, s)` only
/// where the verifier arrives at a multiple of the generator whose
/// x-coordinate is the changed `r`. The multiple depends on `r` as well, so
/// for a changed `r` this is another equation than the one that held.
pub proof fn lemma_tampered_r_needs_its_own_point<B: VerifyPrimitive>(
    x_of: spec_fn(nat) -> nat,
    multiple_of: spec_fn(PublicKey) -> nat,
    key: PublicKey,
    digest: Seq<u8>,
    changed: nat,
    s: nat,
    s_inv: nat,
    verdict: Result<(), Error>,
)
    requires
        verifies_by_the_equations::<B>(x_of, multiple_of),
        verifies::<B>(key, digest, (changed, s), verdict),
        is_inverse::<B::Curve>(s, s_inv),
    ensures
        verdict is Ok <==> accepts::<B::Curve>(
            x_of,
            multiple_of(key),
            reduce::<B::Curve>(be_value(digest)),
            changed,
            s_inv,
        ),
{
    let z = reduce::<B::Curve>(be_value(digest));
    let checked = choose|outcome: Result<(), Error>|
        #[trigger] backend_verifies::<B>(key, z, (changed, s), outcome) && verdict
            == crate::hazmat::opaque_verification(outcome);
    assert(backend_verifies::<B>(key, z, (changed, s), checked));
}

} // verus!
