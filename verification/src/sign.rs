//! Signing keys.

use crate::curve::Curve;
use crate::error::Error;
use crate::hazmat::{
    backend_is_deterministic, backend_multiplies, backend_signs, opaque_signing,
    signing_outcome, Backend, PointArithmetic, RandomBytes, SignPrimitive,
};
use crate::limbs::{be_bytes, be_value};
use crate::rfc6979::{generate_k, nonce};
use crate::scalar::{reduce, NonZeroScalar, Scalar, SecretScalar};
use crate::signature::Signature;
use crate::signer::SecretKey;
use crate::sec1::{copy_block, PublicKey};
use crate::verify::{key_of, VerifyKey};
use core::marker::PhantomData;
use vstd::prelude::*;

verus! {

/// How many draws [`SigningKey::random`] makes before it gives up. A draw is
/// refused only when it is zero or not below the order.
pub const MAX_DRAWS: u64 = 0xffff_ffff_ffff_ffff;

/// Whether `bytes` spells a secret key: thirty-two bytes whose value lies in
/// `[1, n - 1]`.
pub open spec fn valid_secret<C: Curve>(bytes: Seq<u8>) -> bool {
    bytes.len() == 32 && 0 < be_value(bytes) < C::order()
}

/// Whether `res` is a result of signing `digest` with the secret scalar
/// `secret` and the backend `B`, with `additional` data mixed into the
/// nonce.
///
/// A key that was wiped holds zero and signs nothing. Where the nonce
/// generator finds no nonce, signing fails as well. Otherwise the backend
/// is asked once, with the secret scalar, the nonce, and the digest reduced
/// modulo the order, and its outcome is passed through [`opaque_signing`].
pub open spec fn signs<B: SignPrimitive>(
    secret: nat,
    digest: Seq<u8>,
    additional: Seq<u8>,
    res: Result<Signature<B::Curve>, Error>,
) -> bool {
    if secret == 0 {
        res == Err::<Signature<B::Curve>, Error>(Error::SigningFailed)
    } else {
        match nonce::<B::Curve>(secret, digest, additional) {
            None => res == Err::<Signature<B::Curve>, Error>(Error::SigningFailed),
            Some(k) => exists|outcome: Result<Signature<B::Curve>, Error>|
                #[trigger] backend_signs::<B>(
                    secret,
                    k,
                    reduce::<B::Curve>(be_value(digest)),
                    outcome,
                ) && res == opaque_signing(outcome),
        }
    }
}

/// Whether `res` is a result of deriving the verification key of the secret
/// scalar `secret` with the backend `B`: a key that was wiped holds zero and
/// has none; otherwise the backend is asked once for the generator times
/// the secret scalar.
pub open spec fn derives_key<B: PointArithmetic>(
    secret: nat,
    res: Result<PublicKey, Error>,
) -> bool {
    if secret == 0 {
        res == Err::<PublicKey, Error>(Error::InvalidKey)
    } else {
        res matches Ok(point) && backend_multiplies::<B>(secret, point)
    }
}

/// Whether each draw starts where the draw before it ended, the first at
/// `start`, and the last ends at `end`. A draw is the source before the
/// request, the source after it, and the block that was written.
pub open spec fn draws_follow<R>(draws: Seq<(R, R, Seq<u8>)>, start: R, end: R) -> bool {
    &&& draws.len() > 0
    &&& draws[0].0 == start
    &&& draws.last().1 == end
    &&& forall|i: int| 0 < i < draws.len() ==> (#[trigger] draws[i]).0 == draws[i - 1].1
}

/// Whether every block but the last spells no secret key.
pub open spec fn all_refused_but_last<C: Curve, R>(draws: Seq<(R, R, Seq<u8>)>) -> bool {
    forall|i: int| 0 <= i < draws.len() - 1 ==> !valid_secret::<C>((#[trigger] draws[i]).2)
}

/// An ECDSA signing key: a secret scalar, for the backend `B`.
///
/// The scalar lies in `[1, n)` when the key is made. It is overwritten with
/// zeros when the key is wiped or dropped, and a key that holds zero signs
/// nothing and has no verification key.
pub struct SigningKey<B: Backend> {
    secret_scalar: SecretScalar<B::Curve>,
    backend: PhantomData<B>,
}

impl<B: Backend> View for SigningKey<B> {
    type V = nat;

    closed spec fn view(&self) -> nat {
        self.secret_scalar@
    }
}

impl<B: Backend> SigningKey<B> {
    /// Reads a signing key from a raw scalar, serialized as thirty-two
    /// bytes. Another length, zero and values that are not below the order
    /// are refused.
    pub fn new(bytes: &[u8]) -> (res: Result<SigningKey<B>, Error>)
        ensures
            res is Ok <==> valid_secret::<B::Curve>(bytes@),
            res matches Ok(key) ==> key@ == be_value(bytes@),
            res matches Err(e) ==> e == Error::InvalidKey,
    {
        if bytes.len() != 32 {
            return Err(Error::InvalidKey);
        }
        let mut repr: [u8; 32] = copy_block(bytes, 0);
        assert(repr@ =~= bytes@);
        let scalar: Option<SecretScalar<B::Curve>> = SecretScalar::from_repr(&repr);
        crate::digest::wipe_block(&mut repr);
        match scalar {
            Some(secret_scalar) => Ok(SigningKey { secret_scalar, backend: PhantomData }),
            None => Err(Error::InvalidKey),
        }
    }

    /// Draws a signing key from `rng`: candidates of thirty-two random bytes
    /// are drawn until one spells a secret key. `Err` is returned only when
    /// [`MAX_DRAWS`] candidates in a row were refused.
    ///
    /// The contract speaks of the draws that were made, one after another.
    /// Each is a request to the source, which starts where the request
    /// before it ended. Every block but the last was refused. The last
    /// block is the key; or it was refused too, and is the last of
    /// [`MAX_DRAWS`].
    pub fn random<R: RandomBytes>(rng: &mut R) -> (res: Result<SigningKey<B>, Error>)
        ensures
            exists|draws: Seq<(R, R, Seq<u8>)>|
                {
                    &&& #[trigger] draws_follow(draws, *old(rng), *final(rng))
                    &&& draws.len() <= MAX_DRAWS
                    &&& forall|i: int|
                        #![trigger draws[i]]
                        0 <= i < draws.len() ==> exists|r: &mut R, d: &mut [u8; 32]|
                            {
                                &&& #[trigger] call_ensures(R::fill_bytes, (r, d), ())
                                &&& mut_ref_current(r) == draws[i].0
                                &&& mut_ref_future(r) == draws[i].1
                                &&& mut_ref_future(d)@ == draws[i].2
                            }
                    &&& all_refused_but_last::<B::Curve, R>(draws)
                    &&& match res {
                        Ok(key) => valid_secret::<B::Curve>(draws.last().2) && key@ == be_value(
                            draws.last().2,
                        ),
                        Err(e) => e == Error::InvalidKey && draws.len() == MAX_DRAWS
                            && !valid_secret::<B::Curve>(draws.last().2),
                    }
                },
    {
        let ghost mut log: Seq<(R, R, Seq<u8>)> = Seq::empty();
        let mut draws: u64 = 0;
        while draws < MAX_DRAWS
            invariant
                draws <= MAX_DRAWS,
                log.len() == draws,
                draws == 0 ==> *rng == *old(rng),
                draws > 0 ==> draws_follow(log, *old(rng), *rng),
                forall|i: int|
                    #![trigger log[i]]
                    0 <= i < log.len() ==> exists|r: &mut R, d: &mut [u8; 32]|
                        {
                            &&& #[trigger] call_ensures(R::fill_bytes, (r, d), ())
                            &&& mut_ref_current(r) == log[i].0
                            &&& mut_ref_future(r) == log[i].1
                            &&& mut_ref_future(d)@ == log[i].2
                        },
                forall|i: int|
                    0 <= i < log.len() ==> !valid_secret::<B::Curve>((#[trigger] log[i]).2),
            decreases MAX_DRAWS - draws,
        {
            let ghost before = *rng;
            let ghost earlier = log;
            let mut candidate: [u8; 32] = [0u8; 32];
            let draw = R::fill_bytes;
            draw(rng, &mut candidate);
            proof {
                log = earlier.push((before, *rng, candidate@));
                assert forall|i: int| #![trigger log[i]] 0 <= i < log.len() implies exists|
                    r: &mut R,
                    d: &mut [u8; 32],
                |
                    {
                        &&& #[trigger] call_ensures(R::fill_bytes, (r, d), ())
                        &&& mut_ref_current(r) == log[i].0
                        &&& mut_ref_future(r) == log[i].1
                        &&& mut_ref_future(d)@ == log[i].2
                    } by {
                    if i < earlier.len() {
                        assert(log[i] == earlier[i]);
                    }
                }
                assert(draws_follow(log, *old(rng), *rng)) by {
                    assert forall|i: int| 0 < i < log.len() implies (#[trigger] log[i]).0 == log[i
                        - 1].1 by {
                        if i < earlier.len() {
                            assert(log[i] == earlier[i]);
                            assert(log[i - 1] == earlier[i - 1]);
                        }
                    }
                }
            }
            let ghost bytes = candidate@;
            let key: Result<SigningKey<B>, Error> = SigningKey::new(candidate.as_slice());
            crate::digest::wipe_block(&mut candidate);
            match key {
                Ok(key) => {
                    proof {
                        assert(log.last().2 == bytes);
                        assert(all_refused_but_last::<B::Curve, R>(log)) by {
                            assert forall|i: int| 0 <= i < log.len() - 1 implies !valid_secret::<
                                B::Curve,
                            >((#[trigger] log[i]).2) by {
                                assert(log[i] == earlier[i]);
                            }
                        }
                        assert(draws_follow(log, *old(rng), *rng));
                    }
                    return Ok(key);
                },
                Err(_) => {},
            }
            draws += 1;
        }
        proof {
            assert(all_refused_but_last::<B::Curve, R>(log));
            assert(draws_follow(log, *old(rng), *rng));
        }
        Err(Error::InvalidKey)
    }

    /// Makes a signing key from a stored secret key. Bytes that spell zero
    /// or a value that is not below the order are refused.
    pub fn from_secret_key(secret_key: &SecretKey) -> (res: Result<SigningKey<B>, Error>)
        ensures
            res is Ok <==> 0 < be_value(secret_key@) < B::Curve::order(),
            res matches Ok(key) ==> key@ == be_value(secret_key@),
            res matches Err(e) ==> e == Error::InvalidKey,
    {
        SigningKey::new(secret_key.as_bytes().as_slice())
    }

    /// A signing key with the given secret scalar.
    pub fn from_nonzero_scalar(secret_scalar: NonZeroScalar<B::Curve>) -> (key: SigningKey<B>)
        ensures
            key@ == secret_scalar@,
    {
        SigningKey {
            secret_scalar: SecretScalar::from_nonzero_scalar(secret_scalar),
            backend: PhantomData,
        }
    }

    /// The secret scalar as thirty-two bytes, most significant first: the
    /// bytes of a secret key, or zeros where the key was wiped.
    pub fn to_bytes(&self) -> (out: [u8; 32])
        ensures
            out@ == be_bytes(self@, 32),
            be_value(out@) == self@,
            self@ != 0 <==> valid_secret::<B::Curve>(out@),
    {
        self.secret_scalar.to_bytes()
    }

    /// Whether the key was wiped.
    pub fn is_wiped(&self) -> (wiped: bool)
        ensures
            wiped <==> self@ == 0,
    {
        self.secret_scalar.is_wiped()
    }

    /// Overwrites the secret scalar with zeros, a pattern that no key has.
    /// From then on the key signs nothing.
    pub fn zeroize(&mut self)
        ensures
            final(self)@ == 0,
        opens_invariants none
        no_unwind
    {
        self.secret_scalar.zeroize();
    }
}

impl<B: SignPrimitive> SigningKey<B> {
    /// Signs a message digest with the deterministic nonce of RFC 6979.
    pub fn try_sign_digest(&self, digest: &[u8; 32]) -> (res: Result<Signature<B::Curve>, Error>)
        ensures
            signs::<B>(self@, digest@, Seq::empty(), res),
    {
        let no_data: Vec<u8> = Vec::new();
        assert(no_data@ =~= Seq::<u8>::empty());
        self.sign_with(digest, no_data.as_slice())
    }

    /// Hashes `msg` with the curve's hash function and signs the digest.
    pub fn try_sign(&self, msg: &[u8]) -> (res: Result<Signature<B::Curve>, Error>)
        ensures
            signs::<B>(self@, <B::Curve as Curve>::spec_digest(msg@), Seq::empty(), res),
    {
        let digest: [u8; 32] = <B::Curve as Curve>::digest(msg);
        self.try_sign_digest(&digest)
    }

    /// Signs a message digest with a nonce that mixes `added_entropy` into
    /// the deterministic derivation.
    pub fn try_sign_digest_with_entropy(&self, added_entropy: &[u8; 32], digest: &[u8; 32]) -> (res:
        Result<Signature<B::Curve>, Error>)
        ensures
            signs::<B>(self@, digest@, added_entropy@, res),
    {
        self.sign_with(digest, added_entropy.as_slice())
    }

    /// Signs a message digest with a nonce that mixes thirty-two fresh bytes
    /// from `rng` into the deterministic derivation.
    ///
    /// The source is asked once, for one block. What it writes is the
    /// additional data of the nonce, whole and in order, and the source is
    /// left as that one request left it.
    pub fn try_sign_digest_with_rng<R: RandomBytes>(&self, rng: &mut R, digest: &[u8; 32]) -> (res:
        Result<Signature<B::Curve>, Error>)
        ensures
            exists|r: &mut R, d: &mut [u8; 32]|
                {
                    &&& #[trigger] call_ensures(R::fill_bytes, (r, d), ())
                    &&& mut_ref_current(r) == *old(rng)
                    &&& mut_ref_future(r) == *final(rng)
                    &&& signs::<B>(self@, digest@, mut_ref_future(d)@, res)
                },
    {
        let mut added_entropy: [u8; 32] = [0u8; 32];
        let draw = R::fill_bytes;
        draw(rng, &mut added_entropy);
        self.try_sign_digest_with_entropy(&added_entropy, digest)
    }

    /// Hashes `msg` with the curve's hash function and signs the digest with
    /// a nonce that mixes in thirty-two fresh bytes from `rng`, drawn as
    /// [`Self::try_sign_digest_with_rng`] draws them.
    pub fn try_sign_with_rng<R: RandomBytes>(&self, rng: &mut R, msg: &[u8]) -> (res: Result<
        Signature<B::Curve>,
        Error,
    >)
        ensures
            exists|r: &mut R, d: &mut [u8; 32]|
                {
                    &&& #[trigger] call_ensures(R::fill_bytes, (r, d), ())
                    &&& mut_ref_current(r) == *old(rng)
                    &&& mut_ref_future(r) == *final(rng)
                    &&& signs::<B>(
                        self@,
                        <B::Curve as Curve>::spec_digest(msg@),
                        mut_ref_future(d)@,
                        res,
                    )
                },
    {
        let digest: [u8; 32] = <B::Curve as Curve>::digest(msg);
        self.try_sign_digest_with_rng(rng, &digest)
    }

    fn sign_with(&self, digest: &[u8; 32], additional_data: &[u8]) -> (res: Result<
        Signature<B::Curve>,
        Error,
    >)
        ensures
            signs::<B>(self@, digest@, additional_data@, res),
    {
        if self.secret_scalar.is_wiped() {
            return Err(Error::SigningFailed);
        }
        match generate_k(self.secret_scalar.as_scalar(), digest, additional_data) {
            Some(mut ephemeral_scalar) => {
                let hashed_msg: Scalar<B::Curve> = Scalar::from_digest(digest);
                let ghost k = ephemeral_scalar@;
                let ghost z = hashed_msg@;
                let primitive = B::try_sign_prehashed;
                let outcome: Result<Signature<B::Curve>, Error> = primitive(
                    self.secret_scalar.as_scalar(),
                    ephemeral_scalar.as_scalar(),
                    &hashed_msg,
                );
                ephemeral_scalar.zeroize();
                let res: Result<Signature<B::Curve>, Error> = signing_outcome(outcome);
                assert(exists|o: Result<Signature<B::Curve>, Error>|
                    #[trigger] backend_signs::<B>(self@, k, z, o) && res == opaque_signing(o)) by {
                    assert(backend_signs::<B>(self@, k, z, outcome));
                }
                assert(nonce::<B::Curve>(self@, digest@, additional_data@) matches Some(found)
                    && found == k);
                res
            },
            None => Err(Error::SigningFailed),
        }
    }
}

impl<B: PointArithmetic> SigningKey<B> {
    /// The verification key that belongs to this signing key: the point
    /// that the backend gives for the generator times the secret scalar. A
    /// key that was wiped has none.
    pub fn verify_key(&self) -> (res: Result<VerifyKey<B>, Error>)
        ensures
            derives_key::<B>(self@, key_of(res)),
    {
        if self.secret_scalar.is_wiped() {
            return Err(Error::InvalidKey);
        }
        let primitive = B::mul_by_generator;
        let point = primitive(self.secret_scalar.as_scalar());
        Ok(VerifyKey::from_public_key(point))
    }
}

/// Signing is deterministic where the backend is: two signatures of one
/// digest under one key, made with the same additional data or with none,
/// are the same signature.
pub proof fn lemma_signing_is_deterministic<B: SignPrimitive>(
    secret: nat,
    digest: Seq<u8>,
    additional: Seq<u8>,
    first: Result<Signature<B::Curve>, Error>,
    second: Result<Signature<B::Curve>, Error>,
)
    requires
        backend_is_deterministic::<B>(),
        signs::<B>(secret, digest, additional, first),
        signs::<B>(secret, digest, additional, second),
    ensures
        first == second,
{
}

impl<B: Backend> Drop for SigningKey<B> {
    fn drop(&mut self)
        ensures
            final(self)@ == 0,
        opens_invariants none
        no_unwind
    {
        self.zeroize();
    }
}

} // verus!
