//! Development-related functionality: test vectors, and checks that hold a
//! curve backend to them.

use crate::curve::Curve;
use crate::error::Error;
use crate::hazmat::{
    backend_decodes, backend_signs, backend_verifies, PointArithmetic, SignPrimitive,
    VerifyPrimitive,
};
use crate::limbs::{be_bytes, be_value};
use crate::scalar::{NonZeroScalar, Scalar};
use crate::sec1::{copy_block, sec1_encoding, EncodedPoint, PublicKey};
use crate::signature::{valid_component, Signature};
use vstd::prelude::*;

verus! {

/// ECDSA test vector
pub struct TestVector {
    /// Private scalar
    pub d: &'static [u8],
    /// Public key x-coordinate (`Qx`)
    pub q_x: &'static [u8],
    /// Public key y-coordinate (`Qy`)
    pub q_y: &'static [u8],
    /// Ephemeral scalar (a.k.a. nonce)
    pub k: &'static [u8],
    /// Message digest (prehashed)
    pub m: &'static [u8],
    /// Signature `r` component
    pub r: &'static [u8],
    /// Signature `s` component
    pub s: &'static [u8],
}

/// Whether the signature `(r, s)` is the one that the vector records.
pub open spec fn recorded(signature: (nat, nat), vector: &TestVector) -> bool {
    vector.r@ == be_bytes(signature.0, 32) && vector.s@ == be_bytes(signature.1, 32)
}

/// Whether the fields that signing reads decode: the private scalar and the
/// nonce as non-zero scalars, the message as a scalar.
pub open spec fn signing_fields_decode<C: Curve>(vector: &TestVector) -> bool {
    &&& vector.d@.len() == 32
    &&& vector.k@.len() == 32
    &&& vector.m@.len() == 32
    &&& valid_component::<C>(be_value(vector.d@))
    &&& valid_component::<C>(be_value(vector.k@))
    &&& be_value(vector.m@) < C::order()
}

/// The bytes with the lowest bit of the first byte flipped.
pub open spec fn flip_first_byte(bytes: Seq<u8>) -> Seq<u8> {
    bytes.update(0, bytes[0] ^ 1)
}

/// The `s` half that a check reads: the recorded one, or the tampered one.
pub open spec fn s_read(vector: &TestVector, flip_s: bool) -> Seq<u8> {
    if flip_s {
        flip_first_byte(vector.s@)
    } else {
        vector.s@
    }
}

/// Whether the fields that verification reads decode: the coordinates as
/// thirty-two bytes each, the message as a scalar, and `r` and `s` as the
/// halves of a signature.
pub open spec fn verification_fields_decode<C: Curve>(vector: &TestVector, flip_s: bool) -> bool {
    &&& vector.q_x@.len() == 32
    &&& vector.q_y@.len() == 32
    &&& vector.m@.len() == 32
    &&& vector.r@.len() == 32
    &&& vector.s@.len() == 32
    &&& be_value(vector.m@) < C::order()
    &&& valid_component::<C>(be_value(vector.r@))
    &&& valid_component::<C>(be_value(s_read(vector, flip_s)))
}

/// Whether `decoded` is what the backend `B` may return when it is asked to
/// decode the vector's public key from its uncompressed encoding.
pub open spec fn backend_reads_vector<B: PointArithmetic>(
    vector: &TestVector,
    decoded: Option<PublicKey>,
) -> bool {
    backend_decodes::<B>(sec1_encoding(vector.q_x@, vector.q_y@, false), decoded)
}

/// Whether `outcome` is what the backend `B` may return when it is asked to
/// check what the vector records, with `s` tampered or not, against `key`.
pub open spec fn backend_checks_vector<B: VerifyPrimitive>(
    vector: &TestVector,
    flip_s: bool,
    key: PublicKey,
    outcome: Result<(), Error>,
) -> bool {
    backend_verifies::<B>(
        key,
        be_value(vector.m@),
        (be_value(vector.r@), be_value(s_read(vector, flip_s))),
        outcome,
    )
}

/// Whether `verdict` is what a check of the vector comes to, with `s`
/// tampered or not: the backend decodes the public key, then checks the
/// signature against it. `None` stands for a key that the backend refused.
pub open spec fn vector_checked<B: VerifyPrimitive + PointArithmetic>(
    vector: &TestVector,
    flip_s: bool,
    verdict: Option<Result<(), Error>>,
) -> bool {
    exists|decoded: Option<PublicKey>| #[trigger]
        backend_reads_vector::<B>(vector, decoded) && match decoded {
            None => verdict is None,
            Some(key) => verdict matches Some(outcome) && backend_checks_vector::<B>(
                vector,
                flip_s,
                key,
                outcome,
            ),
        }
}

/// Whether `signature` is the one that the vector records.
pub fn matches_vector<C: Curve>(signature: &Signature<C>, vector: &TestVector) -> (same: bool)
    ensures
        same <==> recorded(signature@, vector),
{
    let bytes: [u8; 64] = signature.to_bytes();
    proof {
        crate::limbs::lemma_be_bytes_value(signature@.0, 32);
        crate::limbs::lemma_be_bytes_value(signature@.1, 32);
    }
    if vector.r.len() != 32 || vector.s.len() != 32 {
        return false;
    }
    let mut i: usize = 0;
    while i < 32
        invariant
            i <= 32,
            vector.r@.len() == 32,
            vector.s@.len() == 32,
            bytes@ == be_bytes(signature@.0, 32) + be_bytes(signature@.1, 32),
            be_bytes(signature@.0, 32).len() == 32,
            be_bytes(signature@.1, 32).len() == 32,
            forall|j: int| 0 <= j < i ==> vector.r@[j] == bytes@[j],
            forall|j: int| 0 <= j < i ==> vector.s@[j] == bytes@[32 + j],
        decreases 32 - i,
    {
        if vector.r[i] != bytes[i] || vector.s[i] != bytes[32 + i] {
            return false;
        }
        i += 1;
    }
    proof {
        let r = be_bytes(signature@.0, 32);
        let s = be_bytes(signature@.1, 32);
        assert forall|j: int| 0 <= j < 32 implies vector.r@[j] == r[j] && vector.s@[j] == s[j] by {
            assert(bytes@[j] == r[j]);
            assert(bytes@[32 + j] == s[j]);
        }
        assert(vector.r@ =~= r);
        assert(vector.s@ =~= s);
    }
    true
}

/// Asks the backend to sign with the vector's private scalar, nonce and
/// message scalar, and says whether it returned the vector's signature. A
/// vector whose fields do not decode is not passed, and the backend is not
/// asked.
pub fn signing_vector_passes<B: SignPrimitive>(vector: &TestVector) -> (passed: bool)
    ensures
        !signing_fields_decode::<B::Curve>(vector) ==> !passed,
        signing_fields_decode::<B::Curve>(vector) ==> exists|
            outcome: Result<Signature<B::Curve>, Error>,
        |
            {
                &&& #[trigger] backend_signs::<B>(
                    be_value(vector.d@),
                    be_value(vector.k@),
                    be_value(vector.m@),
                    outcome,
                )
                &&& passed <==> (outcome matches Ok(signature) && recorded(signature@, vector))
            },
{
    if vector.d.len() != 32 || vector.k.len() != 32 || vector.m.len() != 32 {
        return false;
    }
    let d_bytes: [u8; 32] = copy_block(vector.d, 0);
    let k_bytes: [u8; 32] = copy_block(vector.k, 0);
    let m_bytes: [u8; 32] = copy_block(vector.m, 0);
    assert(d_bytes@ =~= vector.d@);
    assert(k_bytes@ =~= vector.k@);
    assert(m_bytes@ =~= vector.m@);
    let d: Option<NonZeroScalar<B::Curve>> = NonZeroScalar::from_repr(&d_bytes);
    let k: Option<NonZeroScalar<B::Curve>> = NonZeroScalar::from_repr(&k_bytes);
    let z: Option<Scalar<B::Curve>> = Scalar::from_repr(&m_bytes);
    match (d, k, z) {
        (Some(d), Some(k), Some(z)) => {
            let primitive = B::try_sign_prehashed;
            let d: Scalar<B::Curve> = d.as_scalar();
            let k: Scalar<B::Curve> = k.as_scalar();
            let outcome: Result<Signature<B::Curve>, Error> = primitive(&d, &k, &z);
            let passed: bool = match outcome {
                Ok(signature) => matches_vector(&signature, vector),
                Err(_) => false,
            };
            assert(exists|o: Result<Signature<B::Curve>, Error>|
                {
                    &&& #[trigger] backend_signs::<B>(
                        be_value(vector.d@),
                        be_value(vector.k@),
                        be_value(vector.m@),
                        o,
                    )
                    &&& passed <==> (o matches Ok(signature) && recorded(signature@, vector))
                }) by {
                assert(backend_signs::<B>(
                    be_value(vector.d@),
                    be_value(vector.k@),
                    be_value(vector.m@),
                    outcome,
                ));
            }
            passed
        },
        _ => false,
    }
}

/// The public key, the message scalar and the signature that the vector
/// records, where all of them decode. With `flip_s`, the lowest bit of the
/// first byte of `s` is flipped before `s` is read.
pub fn decode_vector<C: Curve>(vector: &TestVector, flip_s: bool) -> (res: Option<
    (PublicKey, Scalar<C>, Signature<C>),
>)
    ensures
        res is Some <==> verification_fields_decode::<C>(vector, flip_s),
        res matches Some(parts) ==> {
            &&& parts.0.x@ == vector.q_x@
            &&& parts.0.y@ == vector.q_y@
            &&& parts.1@ == be_value(vector.m@)
            &&& parts.2@ == (be_value(vector.r@), be_value(s_read(vector, flip_s)))
        },
{
    if vector.q_x.len() != 32 || vector.q_y.len() != 32 || vector.m.len() != 32 || vector.r.len()
        != 32 || vector.s.len() != 32 {
        return None;
    }
    let q_x: [u8; 32] = copy_block(vector.q_x, 0);
    let q_y: [u8; 32] = copy_block(vector.q_y, 0);
    let m_bytes: [u8; 32] = copy_block(vector.m, 0);
    let r_bytes: [u8; 32] = copy_block(vector.r, 0);
    let mut s_bytes: [u8; 32] = copy_block(vector.s, 0);
    assert(q_x@ =~= vector.q_x@);
    assert(q_y@ =~= vector.q_y@);
    assert(m_bytes@ =~= vector.m@);
    assert(r_bytes@ =~= vector.r@);
    assert(s_bytes@ =~= vector.s@);
    if flip_s {
        let flipped: u8 = s_bytes[0] ^ 1;
        s_bytes[0] = flipped;
    }
    assert(s_bytes@ =~= s_read(vector, flip_s));
    let z: Option<Scalar<C>> = Scalar::from_repr(&m_bytes);
    let signature: Result<Signature<C>, Error> = Signature::from_scalars(&r_bytes, &s_bytes);
    match (z, signature) {
        (Some(z), Ok(signature)) => Some(
            (PublicKey::from_affine_coordinates(q_x, q_y), z, signature),
        ),
        _ => None,
    }
}

/// Decodes the vector's public key with the backend and asks it to check
/// the vector's signature, with `s` tampered or not. The fields must decode.
fn check_vector<B: VerifyPrimitive + PointArithmetic>(
    public_key: &PublicKey,
    z: &Scalar<B::Curve>,
    signature: &Signature<B::Curve>,
    Ghost(vector): Ghost<&TestVector>,
    Ghost(flip_s): Ghost<bool>,
) -> (verdict: Option<Result<(), Error>>)
    requires
        public_key.x@ == vector.q_x@,
        public_key.y@ == vector.q_y@,
        z@ == be_value(vector.m@),
        signature@ == (be_value(vector.r@), be_value(s_read(vector, flip_s))),
    ensures
        vector_checked::<B>(vector, flip_s, verdict),
{
    let encoded: EncodedPoint = public_key.to_encoded_point(false);
    let decoder = B::from_encoded_point;
    let decoded: Option<PublicKey> = decoder(&encoded);
    assert(backend_reads_vector::<B>(vector, decoded)) by {
        assert(backend_decodes::<B>(encoded@, decoded));
    }
    match decoded {
        Some(key) => {
            let primitive = B::verify_prehashed;
            let outcome: Result<(), Error> = primitive(&key, z, signature);
            assert(backend_checks_vector::<B>(vector, flip_s, key, outcome)) by {
                assert(backend_verifies::<B>(key, z@, signature@, outcome));
            }
            Some(outcome)
        },
        None => None,
    }
}

/// Decodes the vector's public key with the backend, asks it to check the
/// vector's signature against that key and the vector's message scalar, and
/// says whether it accepted. A vector whose fields do not decode is not
/// passed, and the backend is not asked; nor is one whose key the backend
/// refuses.
pub fn verification_vector_passes<B: VerifyPrimitive + PointArithmetic>(
    vector: &TestVector,
) -> (passed: bool)
    ensures
        !verification_fields_decode::<B::Curve>(vector, false) ==> !passed,
        verification_fields_decode::<B::Curve>(vector, false) ==> exists|
            verdict: Option<Result<(), Error>>,
        | #[trigger]
            vector_checked::<B>(vector, false, verdict) && (passed <==> (verdict matches Some(
                outcome,
            ) && outcome is Ok)),
{
    match decode_vector::<B::Curve>(vector, false) {
        Some((public_key, z, signature)) => {
            let verdict: Option<Result<(), Error>> = check_vector::<B>(
                &public_key,
                &z,
                &signature,
                Ghost(vector),
                Ghost(false),
            );
            match verdict {
                Some(Ok(_)) => true,
                _ => false,
            }
        },
        None => false,
    }
}

/// Says whether the backend rejects the vector's signature once the lowest
/// bit of the first byte of `s` is flipped. A vector whose fields do not
/// decode as they stand is not passed, nor is one whose key the backend
/// refuses. Where the flipped `s` is no half of a signature, that counts as
/// rejected and the backend is not asked.
pub fn tampered_vector_rejected<B: VerifyPrimitive + PointArithmetic>(
    vector: &TestVector,
) -> (rejected: bool)
    ensures
        !verification_fields_decode::<B::Curve>(vector, false) ==> !rejected,
        verification_fields_decode::<B::Curve>(vector, false) && !verification_fields_decode::<
            B::Curve,
        >(vector, true) ==> rejected,
        verification_fields_decode::<B::Curve>(vector, true) && verification_fields_decode::<
            B::Curve,
        >(vector, false) ==> exists|verdict: Option<Result<(), Error>>| #[trigger]
            vector_checked::<B>(vector, true, verdict) && (rejected <==> (verdict matches Some(
                outcome,
            ) && outcome is Err)),
{
    if decode_vector::<B::Curve>(vector, false).is_none() {
        return false;
    }
    match decode_vector::<B::Curve>(vector, true) {
        Some((public_key, z, signature)) => {
            let verdict: Option<Result<(), Error>> = check_vector::<B>(
                &public_key,
                &z,
                &signature,
                Ghost(vector),
                Ghost(true),
            );
            match verdict {
                Some(Err(_)) => true,
                _ => false,
            }
        },
        None => true,
    }
}

} // verus!
