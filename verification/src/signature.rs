//! Signatures: a pair `(r, s)` of non-zero scalars.
//!
//! The fixed-width encoding is `r || s`, each half thirty-two bytes, most
//! significant byte first.

use crate::curve::Curve;
use crate::error::Error;
use crate::limbs::{be_bytes, be_value};
use crate::scalar::NonZeroScalar;
use vstd::prelude::*;

verus! {

/// An ECDSA signature.
#[derive(Debug, PartialEq, Eq)]
pub struct Signature<C: Curve> {
    r: NonZeroScalar<C>,
    s: NonZeroScalar<C>,
}

impl<C: Curve> Clone for Signature<C> {
    fn clone(&self) -> (copy: Self)
        ensures
            copy == *self,
    {
        *self
    }
}

impl<C: Curve> Copy for Signature<C> {
}

impl<C: Curve> View for Signature<C> {
    type V = (nat, nat);

    closed spec fn view(&self) -> (nat, nat) {
        (self.r@, self.s@)
    }
}

/// Whether `value` may stand as one half of a signature.
pub open spec fn valid_component<C: Curve>(value: nat) -> bool {
    0 < value < C::order()
}

/// Whether the sixty-four bytes of `bytes` encode a signature.
pub open spec fn encodes_signature<C: Curve>(bytes: Seq<u8>) -> bool {
    &&& bytes.len() == 64
    &&& valid_component::<C>(be_value(bytes.subrange(0, 32)))
    &&& valid_component::<C>(be_value(bytes.subrange(32, 64)))
}

impl<C: Curve> Signature<C> {
    /// Builds a signature from its two halves, each given as thirty-two
    /// bytes. A half that is zero or not below the order is refused.
    pub fn from_scalars(r: &[u8; 32], s: &[u8; 32]) -> (res: Result<Signature<C>, Error>)
        ensures
            res is Ok <==> valid_component::<C>(be_value(r@)) && valid_component::<C>(be_value(s@)),
            res matches Ok(sig) ==> sig@ == (be_value(r@), be_value(s@)),
            res matches Err(e) ==> e == Error::VerificationFailed,
    {
        let r_scalar: Option<NonZeroScalar<C>> = NonZeroScalar::from_repr(r);
        let s_scalar: Option<NonZeroScalar<C>> = NonZeroScalar::from_repr(s);
        match (r_scalar, s_scalar) {
            (Some(r), Some(s)) => Ok(Signature { r, s }),
            _ => Err(Error::VerificationFailed),
        }
    }

    /// Builds a signature from two non-zero scalars.
    pub fn from_nonzero_scalars(r: NonZeroScalar<C>, s: NonZeroScalar<C>) -> (sig: Signature<C>)
        ensures
            sig@ == (r@, s@),
    {
        Signature { r, s }
    }

    /// Decodes a signature from `r || s`. Any other length than sixty-four
    /// bytes is refused, and so is a half that is zero or not below the order.
    pub fn from_bytes(bytes: &[u8]) -> (res: Result<Signature<C>, Error>)
        ensures
            res is Ok <==> encodes_signature::<C>(bytes@),
            res matches Ok(sig) ==> sig@ == (
                be_value(bytes@.subrange(0, 32)),
                be_value(bytes@.subrange(32, 64)),
            ),
            res matches Err(e) ==> e == Error::VerificationFailed,
    {
        if bytes.len() != 64 {
            return Err(Error::VerificationFailed);
        }
        let mut r: [u8; 32] = [0u8; 32];
        let mut s: [u8; 32] = [0u8; 32];
        let mut i: usize = 0;
        while i < 32
            invariant
                i <= 32,
                bytes@.len() == 64,
                forall|j: int| 0 <= j < i ==> r@[j] == bytes@[j],
                forall|j: int| 0 <= j < i ==> s@[j] == bytes@[32 + j],
            decreases 32 - i,
        {
            r[i] = bytes[i];
            s[i] = bytes[32 + i];
            i += 1;
        }
        assert(r@ =~= bytes@.subrange(0, 32));
        assert(s@ =~= bytes@.subrange(32, 64));
        Signature::from_scalars(&r, &s)
    }

    /// Encodes the signature as `r || s`.
    pub fn to_bytes(&self) -> (out: [u8; 64])
        ensures
            out@ == be_bytes(self@.0, 32) + be_bytes(self@.1, 32),
            encodes_signature::<C>(out@),
            be_value(out@.subrange(0, 32)) == self@.0,
            be_value(out@.subrange(32, 64)) == self@.1,
    {
        let r: [u8; 32] = self.r.to_bytes();
        let s: [u8; 32] = self.s.to_bytes();
        let mut out: [u8; 64] = [0u8; 64];
        let mut i: usize = 0;
        while i < 32
            invariant
                i <= 32,
                forall|j: int| 0 <= j < i ==> out@[j] == r@[j],
                forall|j: int| 0 <= j < i ==> out@[32 + j] == s@[j],
            decreases 32 - i,
        {
            out[i] = r[i];
            out[32 + i] = s[i];
            i += 1;
        }
        proof {
            assert(out@ =~= r@ + s@);
            assert(out@.subrange(0, 32) =~= r@);
            assert(out@.subrange(32, 64) =~= s@);
        }
        out
    }

    /// The `r` half.
    pub fn r(&self) -> (r: NonZeroScalar<C>)
        ensures
            r@ == self@.0,
    {
        self.r
    }

    /// The `s` half.
    pub fn s(&self) -> (s: NonZeroScalar<C>)
        ensures
            s@ == self@.1,
    {
        self.s
    }
}

/// Two encodings of one pair `(r, s)` are the same bytes. So a changed
/// encoding, where it still decodes, decodes to another signature than the
/// one it was made from.
pub proof fn lemma_encoding_is_injective(a: Seq<u8>, b: Seq<u8>)
    requires
        a.len() == 64,
        b.len() == 64,
        be_value(a.subrange(0, 32)) == be_value(b.subrange(0, 32)),
        be_value(a.subrange(32, 64)) == be_value(b.subrange(32, 64)),
    ensures
        a == b,
{
    crate::limbs::lemma_be_value_injective(a.subrange(0, 32), b.subrange(0, 32));
    crate::limbs::lemma_be_value_injective(a.subrange(32, 64), b.subrange(32, 64));
    assert(a =~= a.subrange(0, 32) + a.subrange(32, 64));
    assert(b =~= b.subrange(0, 32) + b.subrange(32, 64));
}

} // verus!
