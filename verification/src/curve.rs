//! Curves, as far as this crate has to know them: the order of the group,
//! and the hash function that goes with the curve.
//!
//! Everything else in the crate is generic over [`Curve`]. A curve is
//! described once, here, and its description is verified like any other
//! code: the words of the order spell the order, and the order lies in the
//! upper half of the 256-bit range, so that one subtraction reduces any
//! 256-bit integer.
//!
//! Whether the order is prime, and whether it is the order of any group, is
//! not checked: nothing here depends on it.

use crate::digest::{hmac_sha256, hmac_sha256_code, sha256, sha256_digest};
use crate::limbs::{limbs_value, pow2_256};
use vstd::prelude::*;

verus! {

/// A curve whose group has a 256-bit order, with its hash function.
pub trait Curve {
    /// The order `n` of the group.
    spec fn order() -> nat;

    /// The digest of `message` under the curve's hash function.
    spec fn spec_digest(message: Seq<u8>) -> Seq<u8>;

    /// The HMAC code of `message` under `key`, with the curve's hash
    /// function.
    spec fn spec_mac(key: Seq<u8>, message: Seq<u8>) -> Seq<u8>;

    /// The order lies in `[2^255, 2^256)`.
    proof fn order_in_range()
        ensures
            2 * Self::order() > pow2_256(),
            Self::order() < pow2_256(),
    ;

    /// The order as four words, least significant first.
    fn modulus() -> (m: [u64; 4])
        ensures
            limbs_value(m) == Self::order(),
    ;

    /// Hashes a message.
    fn digest(message: &[u8]) -> (out: [u8; 32])
        ensures
            out@ == Self::spec_digest(message@),
    ;

    /// Computes the HMAC code of a message.
    fn mac(key: &[u8], message: &[u8]) -> (out: [u8; 32])
        ensures
            out@ == Self::spec_mac(key@, message@),
    ;
}

/// The curve NIST P-256, also known as secp256r1 and prime256v1, with
/// SHA-256.
#[derive(Clone, Copy, Debug, Default, PartialEq, Eq, PartialOrd, Ord)]
pub struct NistP256;

impl Curve for NistP256 {
    open spec fn order() -> nat {
        0xffff_ffff_0000_0000_ffff_ffff_ffff_ffff_bce6_faad_a717_9e84_f3b9_cac2_fc63_2551nat
    }

    open spec fn spec_digest(message: Seq<u8>) -> Seq<u8> {
        sha256(message)
    }

    open spec fn spec_mac(key: Seq<u8>, message: Seq<u8>) -> Seq<u8> {
        hmac_sha256(key, message)
    }

    proof fn order_in_range() {
    }

    fn modulus() -> (m: [u64; 4]) {
        [0xf3b9_cac2_fc63_2551, 0xbce6_faad_a717_9e84, 0xffff_ffff_ffff_ffff, 0xffff_ffff_0000_0000]
    }

    fn digest(message: &[u8]) -> (out: [u8; 32]) {
        sha256_digest(message)
    }

    fn mac(key: &[u8], message: &[u8]) -> (out: [u8; 32]) {
        hmac_sha256_code(key, message)
    }
}

/// The curve secp256k1, with SHA-256.
#[derive(Clone, Copy, Debug, Default, PartialEq, Eq, PartialOrd, Ord)]
pub struct Secp256k1;

impl Curve for Secp256k1 {
    open spec fn order() -> nat {
        0xffff_ffff_ffff_ffff_ffff_ffff_ffff_fffe_baae_dce6_af48_a03b_bfd2_5e8c_d036_4141nat
    }

    open spec fn spec_digest(message: Seq<u8>) -> Seq<u8> {
        sha256(message)
    }

    open spec fn spec_mac(key: Seq<u8>, message: Seq<u8>) -> Seq<u8> {
        hmac_sha256(key, message)
    }

    proof fn order_in_range() {
    }

    fn modulus() -> (m: [u64; 4]) {
        [0xbfd2_5e8c_d036_4141, 0xbaae_dce6_af48_a03b, 0xffff_ffff_ffff_fffe, 0xffff_ffff_ffff_ffff]
    }

    fn digest(message: &[u8]) -> (out: [u8; 32]) {
        sha256_digest(message)
    }

    fn mac(key: &[u8], message: &[u8]) -> (out: [u8; 32]) {
        hmac_sha256_code(key, message)
    }
}

} // verus!
