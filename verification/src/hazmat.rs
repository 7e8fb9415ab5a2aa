//! Low-level interfaces that a curve implementation supplies.
//!
//! Point arithmetic is not part of this crate. A backend names its curve
//! and implements the traits below for a marker type, and the keys of this
//! crate are generic over that type.
//!
//! Nothing is assumed of a backend. The contracts of the keys say what a
//! backend is asked and what is made of its answer, in terms of the
//! relations `backend_signs`, `backend_verifies`, `backend_multiplies` and
//! `backend_decodes` between what it is given and what it may return. What
//! follows when a backend computes the equations that the traits describe
//! is shown in [`crate::equations`].

use crate::curve::Curve;
use crate::error::Error;
use crate::scalar::Scalar;
use crate::sec1::{EncodedPoint, PublicKey};
use crate::signature::Signature;
use vstd::prelude::*;

verus! {

/// A backend: the arithmetic of one curve.
pub trait Backend {
    /// The curve whose arithmetic this is.
    type Curve: Curve;
}

/// The signing equations.
pub trait SignPrimitive: Backend {
    /// Computes a signature from the secret scalar `d`, the ephemeral scalar
    /// `k` and the message scalar `z`: `r` is the x-coordinate of `k * G`
    /// modulo the order, `s` is `(z + r * d) / k` modulo the order. Fails
    /// when `r` or `s` comes out as zero.
    ///
    /// The keys of this crate hand over the two secrets where they are
    /// held, without a copy, and never hand over a zero for either.
    fn try_sign_prehashed(
        secret_scalar: &Scalar<Self::Curve>,
        ephemeral_scalar: &Scalar<Self::Curve>,
        hashed_msg: &Scalar<Self::Curve>,
    ) -> Result<Signature<Self::Curve>, Error>;
}

/// The verification equation.
pub trait VerifyPrimitive: Backend {
    /// Checks a signature `(r, s)` against the public point `Q` and the
    /// message scalar `z`: with `u1 = z / s` and `u2 = r / s` modulo the
    /// order, accepts when the x-coordinate of `u1 * G + u2 * Q`, modulo the
    /// order, is `r`.
    fn verify_prehashed(
        public_key: &PublicKey,
        hashed_msg: &Scalar<Self::Curve>,
        signature: &Signature<Self::Curve>,
    ) -> Result<(), Error>;
}

/// Points of the curve.
pub trait PointArithmetic: Backend {
    /// The point `scalar * G`, where `G` is the generator. The keys of this
    /// crate never hand over a zero.
    fn mul_by_generator(scalar: &Scalar<Self::Curve>) -> PublicKey;

    /// Decodes a point other than the identity: decompresses it where it is
    /// compressed, and checks that it lies on the curve.
    fn from_encoded_point(point: &EncodedPoint) -> Option<PublicKey>;
}

/// A source of random bytes.
pub trait RandomBytes {
    /// Fills `dest` with fresh random bytes.
    fn fill_bytes(&mut self, dest: &mut [u8; 32]);
}

/// Whether `outcome` is what the backend `B` may return when it is asked to
/// sign with the secret scalar `d`, the ephemeral scalar `k` and the message
/// scalar `z`.
pub open spec fn backend_signs<B: SignPrimitive>(
    d: nat,
    k: nat,
    z: nat,
    outcome: Result<Signature<B::Curve>, Error>,
) -> bool {
    exists|
        secret: Scalar<B::Curve>,
        ephemeral: Scalar<B::Curve>,
        hashed: Scalar<B::Curve>,
    |
        {
            &&& secret@ == d
            &&& ephemeral@ == k
            &&& hashed@ == z
            &&& #[trigger] call_ensures(
                B::try_sign_prehashed,
                (&secret, &ephemeral, &hashed),
                outcome,
            )
        }
}

/// Whether the backend `B` returns one outcome for one request to sign.
pub open spec fn backend_is_deterministic<B: SignPrimitive>() -> bool {
    forall|
        d: nat,
        k: nat,
        z: nat,
        a: Result<Signature<B::Curve>, Error>,
        b: Result<Signature<B::Curve>, Error>,
    |
        #[trigger] backend_signs::<B>(d, k, z, a) && #[trigger] backend_signs::<B>(d, k, z, b)
            ==> a == b
}

/// Whether `outcome` is what the backend `B` may return when it is asked to
/// check the signature `(r, s)` against the public key and the message
/// scalar `z`.
pub open spec fn backend_verifies<B: VerifyPrimitive>(
    public_key: PublicKey,
    z: nat,
    signature: (nat, nat),
    outcome: Result<(), Error>,
) -> bool {
    exists|hashed: Scalar<B::Curve>, sig: Signature<B::Curve>|
        {
            &&& hashed@ == z
            &&& sig@ == signature
            &&& #[trigger] call_ensures(B::verify_prehashed, (&public_key, &hashed, &sig), outcome)
        }
}

/// Whether `point` is what the backend `B` may return for the generator
/// times `scalar`.
pub open spec fn backend_multiplies<B: PointArithmetic>(scalar: nat, point: PublicKey) -> bool {
    exists|s: Scalar<B::Curve>|
        s@ == scalar && #[trigger] call_ensures(B::mul_by_generator, (&s,), point)
}

/// Whether `decoded` is what the backend `B` may return when it is asked to
/// decode the SEC1 bytes `encoded`.
pub open spec fn backend_decodes<B: PointArithmetic>(
    encoded: Seq<u8>,
    decoded: Option<PublicKey>,
) -> bool {
    exists|point: EncodedPoint|
        point@ == encoded && #[trigger] call_ensures(B::from_encoded_point, (&point,), decoded)
}

/// What a signing operation makes of the primitive's outcome: the signature
/// where there is one, and one opaque error for every failure.
pub open spec fn opaque_signing<C: Curve>(outcome: Result<Signature<C>, Error>) -> Result<
    Signature<C>,
    Error,
> {
    match outcome {
        Ok(signature) => Ok(signature),
        Err(_) => Err(Error::SigningFailed),
    }
}

/// What a verification makes of the primitive's outcome: success where it
/// accepted, and one opaque error for every rejection.
pub open spec fn opaque_verification(outcome: Result<(), Error>) -> Result<(), Error> {
    match outcome {
        Ok(_) => Ok(()),
        Err(_) => Err(Error::VerificationFailed),
    }
}

/// Computes [`opaque_signing`].
pub fn signing_outcome<C: Curve>(outcome: Result<Signature<C>, Error>) -> (res: Result<
    Signature<C>,
    Error,
>)
    ensures
        res == opaque_signing(outcome),
{
    match outcome {
        Ok(signature) => Ok(signature),
        Err(_) => Err(Error::SigningFailed),
    }
}

/// Computes [`opaque_verification`].
pub fn verification_outcome(outcome: Result<(), Error>) -> (res: Result<(), Error>)
    ensures
        res == opaque_verification(outcome),
{
    match outcome {
        Ok(_) => Ok(()),
        Err(_) => Err(Error::VerificationFailed),
    }
}

} // verus!
