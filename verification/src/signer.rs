//! Signers: a signing key made from a stored secret key.

use crate::curve::Curve;
use crate::digest::wipe_block;
use crate::error::Error;
use crate::hazmat::{Backend, RandomBytes, SignPrimitive};
use crate::limbs::be_value;
use crate::sec1::copy_block;
use crate::sign::{signs, SigningKey};
use crate::signature::Signature;
use vstd::prelude::*;

verus! {

/// A secret key as it is stored: thirty-two raw bytes, not yet checked to
/// spell a scalar. The bytes are overwritten when the key is dropped.
pub struct SecretKey {
    bytes: [u8; 32],
}

impl View for SecretKey {
    type V = Seq<u8>;

    closed spec fn view(&self) -> Seq<u8> {
        self.bytes@
    }
}

impl SecretKey {
    /// Takes a copy of thirty-two bytes. Another length is refused.
    pub fn from_bytes(bytes: &[u8]) -> (res: Result<SecretKey, Error>)
        ensures
            res is Ok <==> bytes@.len() == 32,
            res matches Ok(key) ==> key@ == bytes@,
            res matches Err(e) ==> e == Error::InvalidKey,
    {
        if bytes.len() != 32 {
            return Err(Error::InvalidKey);
        }
        let copy: [u8; 32] = copy_block(bytes, 0);
        assert(copy@ =~= bytes@);
        Ok(SecretKey { bytes: copy })
    }

    /// The stored bytes.
    pub fn as_bytes(&self) -> (bytes: &[u8; 32])
        ensures
            bytes@ == self@,
            self@.len() == 32,
    {
        &self.bytes
    }

    /// Overwrites the stored bytes with zeros.
    pub fn zeroize(&mut self)
        ensures
            final(self)@ == Seq::new(32, |i: int| 0u8),
        opens_invariants none
        no_unwind
    {
        wipe_block(&mut self.bytes);
    }
}

impl Drop for SecretKey {
    fn drop(&mut self)
        ensures
            final(self)@ == Seq::new(32, |i: int| 0u8),
        opens_invariants none
        no_unwind
    {
        self.zeroize();
    }
}

/// An ECDSA signer, for the backend `B`.
///
/// It owns a signing key, and with it the duty to overwrite the secret
/// scalar when it is dropped.
pub struct Signer<B: Backend> {
    key: SigningKey<B>,
}

impl<B: Backend> View for Signer<B> {
    type V = nat;

    closed spec fn view(&self) -> nat {
        self.key@
    }
}

impl<B: Backend> Signer<B> {
    /// Makes a signer from a stored secret key. Bytes that spell zero or a
    /// value that is not below the order are refused.
    pub fn new(secret_key: &SecretKey) -> (res: Result<Signer<B>, Error>)
        ensures
            res is Ok <==> 0 < be_value(secret_key@) < B::Curve::order(),
            res matches Ok(signer) ==> signer@ == be_value(secret_key@),
            res matches Err(e) ==> e == Error::InvalidKey,
    {
        match SigningKey::from_secret_key(secret_key) {
            Ok(key) => Ok(Signer { key }),
            Err(_) => Err(Error::InvalidKey),
        }
    }

    /// Overwrites the secret scalar with zeros, a pattern that no key has.
    /// From then on the signer signs nothing.
    pub fn zeroize(&mut self)
        ensures
            final(self)@ == 0,
        opens_invariants none
        no_unwind
    {
        self.key.zeroize();
    }
}

impl<B: SignPrimitive> Signer<B> {
    /// Signs a message digest with the deterministic nonce of RFC 6979.
    pub fn try_sign_digest(&self, digest: &[u8; 32]) -> (res: Result<Signature<B::Curve>, Error>)
        ensures
            signs::<B>(self@, digest@, Seq::empty(), res),
    {
        self.key.try_sign_digest(digest)
    }

    /// Hashes `msg` with the curve's hash function and signs the digest.
    pub fn try_sign(&self, msg: &[u8]) -> (res: Result<Signature<B::Curve>, Error>)
        ensures
            signs::<B>(self@, <B::Curve as Curve>::spec_digest(msg@), Seq::empty(), res),
    {
        self.key.try_sign(msg)
    }

    /// Signs a message digest with a nonce that mixes thirty-two fresh bytes
    /// from `rng` into the deterministic derivation.
    ///
    /// The source is asked once, for one block. What it writes is the
    /// additional data of the nonce, whole and in order, and the source is
    /// left as that one request left it.
    pub fn try_sign_digest_with_rng<R: RandomBytes>(&self, rng: &mut R, digest: &[u8; 32]) -> (res:
        Result<Signature<B::Curve>, Error>)
        ensures
            exists|r: &mut R, d: &mut [u8; 32]|
                {
                    &&& #[trigger] call_ensures(R::fill_bytes, (r, d), ())
                    &&& mut_ref_current(r) == *old(rng)
                    &&& mut_ref_future(r) == *final(rng)
                    &&& signs::<B>(self@, digest@, mut_ref_future(d)@, res)
                },
    {
        self.key.try_sign_digest_with_rng(rng, digest)
    }

    /// Hashes `msg` with the curve's hash function and signs the digest with
    /// a nonce that mixes in thirty-two fresh bytes from `rng`, drawn as
    /// [`Self::try_sign_digest_with_rng`] draws them.
    pub fn try_sign_with_rng<R: RandomBytes>(&self, rng: &mut R, msg: &[u8]) -> (res: Result<
        Signature<B::Curve>,
        Error,
    >)
        ensures
            exists|r: &mut R, d: &mut [u8; 32]|
                {
                    &&& #[trigger] call_ensures(R::fill_bytes, (r, d), ())
                    &&& mut_ref_current(r) == *old(rng)
                    &&& mut_ref_future(r) == *final(rng)
                    &&& signs::<B>(
                        self@,
                        <B::Curve as Curve>::spec_digest(msg@),
                        mut_ref_future(d)@,
                        res,
                    )
                },
    {
        self.key.try_sign_with_rng(rng, msg)
    }
}

impl<B: Backend> Drop for Signer<B> {
    fn drop(&mut self)
        ensures
            final(self)@ == 0,
        opens_invariants none
        no_unwind
    {
        self.zeroize();
    }
}

} // verus!
