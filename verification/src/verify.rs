//! Verification keys.

use crate::curve::Curve;
use crate::error::Error;
use crate::hazmat::{
    backend_decodes, backend_verifies, opaque_verification, verification_outcome, Backend,
    PointArithmetic, VerifyPrimitive,
};
use crate::limbs::be_value;
use crate::scalar::{reduce, Scalar};
use crate::sec1::{sec1_encoding, sec1_well_formed, EncodedPoint, PublicKey};
use crate::signature::Signature;
use core::marker::PhantomData;
use vstd::prelude::*;

verus! {

/// An ECDSA verification key: a public point, for the backend `B`.
#[derive(Debug)]
pub struct VerifyKey<B: Backend> {
    inner: PublicKey,
    backend: PhantomData<B>,
}

impl<B: Backend> View for VerifyKey<B> {
    type V = PublicKey;

    closed spec fn view(&self) -> PublicKey {
        self.inner
    }
}

/// Whether `res` is a result of verifying `signature` over `digest` with
/// the public key and the backend `B`: the backend is asked once, with the
/// public key, the digest reduced modulo the order, and the signature, and
/// its outcome is passed through [`opaque_verification`].
pub open spec fn verifies<B: VerifyPrimitive>(
    public_key: PublicKey,
    digest: Seq<u8>,
    signature: (nat, nat),
    res: Result<(), Error>,
) -> bool {
    exists|outcome: Result<(), Error>|
        #[trigger] backend_verifies::<B>(
            public_key,
            reduce::<B::Curve>(be_value(digest)),
            signature,
            outcome,
        ) && res == opaque_verification(outcome)
}

/// Whether `res` is a result of reading a verification key from `bytes`
/// with the backend `B`.
///
/// Bytes that are no SEC1 encoding, and the encoding of the identity, are
/// refused. Otherwise the backend is asked once to decode the bytes, and
/// its outcome is passed through [`key_or_error`].
pub open spec fn reads_key<B: PointArithmetic>(
    bytes: Seq<u8>,
    res: Result<PublicKey, Error>,
) -> bool {
    if !sec1_well_formed(bytes) || bytes[0] == 0x00 {
        res == Err::<PublicKey, Error>(Error::InvalidKey)
    } else {
        exists|decoded: Option<PublicKey>|
            #[trigger] backend_decodes::<B>(bytes, decoded) && res == key_or_error(decoded)
    }
}

/// What reading a key makes of the backend's outcome: the point where it
/// found one, an error where it did not.
pub open spec fn key_or_error(decoded: Option<PublicKey>) -> Result<PublicKey, Error> {
    match decoded {
        Some(point) => Ok(point),
        None => Err(Error::InvalidKey),
    }
}

/// The public key of a result, where it has one.
pub open spec fn key_of<B: Backend>(res: Result<VerifyKey<B>, Error>) -> Result<PublicKey, Error> {
    match res {
        Ok(key) => Ok(key@),
        Err(e) => Err(e),
    }
}

/// Computes [`key_or_error`], with the point wrapped as a key.
pub fn decoding_outcome<B: Backend>(decoded: Option<PublicKey>) -> (res: Result<
    VerifyKey<B>,
    Error,
>)
    ensures
        key_of(res) == key_or_error(decoded),
{
    match decoded {
        Some(inner) => Ok(VerifyKey { inner, backend: PhantomData }),
        None => Err(Error::InvalidKey),
    }
}

impl<B: Backend> VerifyKey<B> {
    /// A verification key for the given public key.
    pub fn from_public_key(public_key: PublicKey) -> (key: VerifyKey<B>)
        ensures
            key@ == public_key,
    {
        VerifyKey { inner: public_key, backend: PhantomData }
    }

    /// The public key.
    pub fn to_public_key(&self) -> (public_key: PublicKey)
        ensures
            public_key == self@,
    {
        self.inner
    }

    /// The SEC1 encoding of the key, compressed or not.
    pub fn to_encoded_point(&self, compress: bool) -> (point: EncodedPoint)
        ensures
            point@ == sec1_encoding(self@.x@, self@.y@, compress),
    {
        self.inner.to_encoded_point(compress)
    }

    /// Whether two keys hold the same point.
    pub fn eq(&self, other: &VerifyKey<B>) -> (same: bool)
        ensures
            same <==> (self@.x@ == other@.x@ && self@.y@ == other@.y@),
    {
        same_block(&self.inner.x, &other.inner.x) && same_block(&self.inner.y, &other.inner.y)
    }
}

/// Whether two blocks hold the same bytes.
fn same_block(a: &[u8; 32], b: &[u8; 32]) -> (same: bool)
    ensures
        same <==> a@ == b@,
{
    let mut i: usize = 0;
    while i < 32
        invariant
            i <= 32,
            forall|j: int| 0 <= j < i ==> a@[j] == b@[j],
        decreases 32 - i,
    {
        if a[i] != b[i] {
            return false;
        }
        i += 1;
    }
    assert(a@ =~= b@);
    true
}

impl<B: PointArithmetic> VerifyKey<B> {
    /// Reads a verification key from a SEC1-encoded point.
    pub fn from_sec1_bytes(bytes: &[u8]) -> (res: Result<VerifyKey<B>, Error>)
        ensures
            reads_key::<B>(bytes@, key_of(res)),
    {
        match EncodedPoint::from_bytes(bytes) {
            Ok(point) => VerifyKey::from_encoded_point(&point),
            Err(_) => Err(Error::InvalidKey),
        }
    }

    /// Reads a verification key from an encoded point.
    pub fn from_encoded_point(public_key: &EncodedPoint) -> (res: Result<VerifyKey<B>, Error>)
        ensures
            reads_key::<B>(public_key@, key_of(res)),
    {
        if public_key.is_identity() {
            return Err(Error::InvalidKey);
        }
        let primitive = B::from_encoded_point;
        let decoded: Option<PublicKey> = primitive(public_key);
        let res: Result<VerifyKey<B>, Error> = decoding_outcome(decoded);
        assert(exists|d: Option<PublicKey>|
            #[trigger] backend_decodes::<B>(public_key@, d) && key_of(res) == key_or_error(d)) by {
            assert(backend_decodes::<B>(public_key@, decoded));
        }
        res
    }
}

impl<B: VerifyPrimitive> VerifyKey<B> {
    /// Verifies a signature over a message digest.
    pub fn verify_digest(&self, digest: &[u8; 32], signature: &Signature<B::Curve>) -> (res: Result<
        (),
        Error,
    >)
        ensures
            verifies::<B>(self@, digest@, signature@, res),
    {
        let hashed_msg: Scalar<B::Curve> = Scalar::from_digest(digest);
        let primitive = B::verify_prehashed;
        let outcome: Result<(), Error> = primitive(&self.inner, &hashed_msg, signature);
        let res: Result<(), Error> = verification_outcome(outcome);
        let ghost z = reduce::<B::Curve>(be_value(digest@));
        assert(exists|o: Result<(), Error>|
            #[trigger] backend_verifies::<B>(self@, z, signature@, o) && res
                == opaque_verification(o)) by {
            assert(backend_verifies::<B>(self@, z, signature@, outcome));
        }
        res
    }

    /// Hashes `msg` with the curve's hash function and verifies the signature over the digest.
    pub fn verify(&self, msg: &[u8], signature: &Signature<B::Curve>) -> (res: Result<(), Error>)
        ensures
            verifies::<B>(self@, <B::Curve as Curve>::spec_digest(msg@), signature@, res),
    {
        let digest: [u8; 32] = <B::Curve as Curve>::digest(msg);
        self.verify_digest(&digest, signature)
    }
}

} // verus!
