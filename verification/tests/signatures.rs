//! Signatures and their fixed-width encoding.

use ecdsa::{Error, NistP256};

type NonZeroScalar = ecdsa::NonZeroScalar<NistP256>;
type Signature = ecdsa::Signature<NistP256>;

fn hex32(text: &str) -> [u8; 32] {
    assert_eq!(text.len(), 64);
    let mut out = [0u8; 32];
    for i in 0..32 {
        out[i] = u8::from_str_radix(&text[2 * i..2 * i + 2], 16).unwrap();
    }
    out
}

const ORDER: &str = "ffffffff00000000ffffffffffffffffbce6faada7179e84f3b9cac2fc632551";
const ORDER_LESS_ONE: &str = "ffffffff00000000ffffffffffffffffbce6faada7179e84f3b9cac2fc632550";
const R: &str = "efd48b2aacb6a8fd1140dd9cd45e81d69d2c877b56aaf991c34d0ea84eaf3716";
const S: &str = "f7cb1c942d657c41d436c7a1b6e29f65f3e900dbb9aff4064dc4ab2f843acda8";

fn join(r: &[u8; 32], s: &[u8; 32]) -> [u8; 64] {
    let mut out = [0u8; 64];
    out[..32].copy_from_slice(r);
    out[32..].copy_from_slice(s);
    out
}

#[test]
fn encoding_is_r_then_s() {
    let signature = Signature::from_scalars(&hex32(R), &hex32(S)).unwrap();
    assert_eq!(signature.r().to_bytes(), hex32(R));
    assert_eq!(signature.s().to_bytes(), hex32(S));
    assert_eq!(signature.to_bytes(), join(&hex32(R), &hex32(S)));
    let swapped = Signature::from_scalars(&hex32(S), &hex32(R)).unwrap();
    assert_ne!(signature, swapped);
    assert_eq!(swapped.to_bytes(), join(&hex32(S), &hex32(R)));
}

#[test]
fn small_values_are_padded_with_zeros() {
    let mut one = [0u8; 32];
    one[31] = 1;
    let mut two = [0u8; 32];
    two[31] = 2;
    let signature = Signature::from_scalars(&one, &two).unwrap();
    let bytes = signature.to_bytes();
    assert_eq!(bytes.len(), 64);
    assert_eq!(bytes[31], 1);
    assert_eq!(bytes[63], 2);
    assert_eq!(bytes.iter().filter(|b| **b == 0).count(), 62);
    assert_eq!(Signature::from_bytes(&bytes), Ok(signature));
}

#[test]
fn decoding_reads_back_what_encoding_wrote() {
    let signature = Signature::from_scalars(&hex32(R), &hex32(S)).unwrap();
    assert_eq!(Signature::from_bytes(&signature.to_bytes()), Ok(signature));
    let largest = Signature::from_scalars(&hex32(ORDER_LESS_ONE), &hex32(ORDER_LESS_ONE)).unwrap();
    assert_eq!(Signature::from_bytes(&largest.to_bytes()), Ok(largest));
}

#[test]
fn from_nonzero_scalars_keeps_both_halves() {
    let r = NonZeroScalar::from_repr(&hex32(R)).unwrap();
    let s = NonZeroScalar::from_repr(&hex32(S)).unwrap();
    let signature = Signature::from_nonzero_scalars(r, s);
    assert_eq!(signature.r(), r);
    assert_eq!(signature.s(), s);
    assert_eq!(signature, Signature::from_scalars(&hex32(R), &hex32(S)).unwrap());
}

#[test]
fn malformed_halves_are_refused() {
    let zero = [0u8; 32];
    let failed = Err(Error::VerificationFailed);
    assert_eq!(Signature::from_scalars(&zero, &hex32(S)), failed);
    assert_eq!(Signature::from_scalars(&hex32(R), &zero), failed);
    assert_eq!(Signature::from_scalars(&zero, &zero), failed);
    assert_eq!(Signature::from_scalars(&hex32(ORDER), &hex32(S)), failed);
    assert_eq!(Signature::from_scalars(&hex32(R), &hex32(ORDER)), failed);
    assert_eq!(Signature::from_scalars(&[0xff; 32], &hex32(S)), failed);
    assert_eq!(Signature::from_scalars(&hex32(R), &[0xff; 32]), failed);
    assert_eq!(Signature::from_bytes(&join(&zero, &hex32(S))), failed);
    assert_eq!(Signature::from_bytes(&join(&hex32(R), &zero)), failed);
    assert_eq!(Signature::from_bytes(&join(&hex32(ORDER), &hex32(S))), failed);
    assert_eq!(Signature::from_bytes(&join(&hex32(R), &hex32(ORDER))), failed);
}

#[test]
fn other_lengths_are_refused() {
    let good = join(&hex32(R), &hex32(S));
    let failed = Err(Error::VerificationFailed);
    assert_eq!(Signature::from_bytes(&[]), failed);
    assert_eq!(Signature::from_bytes(&good[..63]), failed);
    assert_eq!(Signature::from_bytes(&good[..32]), failed);
    let mut long = good.to_vec();
    long.push(0);
    assert_eq!(Signature::from_bytes(&long), failed);
}

#[test]
fn a_changed_encoding_is_a_changed_signature() {
    let good = join(&hex32(R), &hex32(S));
    let signature = Signature::from_bytes(&good).unwrap();
    for position in 0..512 {
        let mut changed = good;
        changed[position / 8] ^= 1 << (position % 8);
        match Signature::from_bytes(&changed) {
            Ok(other) => assert_ne!(other, signature),
            Err(e) => assert_eq!(e, Error::VerificationFailed),
        }
    }
}
