//! Signing and verification keys, run against a small P-256 backend that is
//! written out below with affine point formulas.

use ecdsa::dev::{
    decode_vector, matches_vector, signing_vector_passes, tampered_vector_rejected,
    verification_vector_passes, TestVector,
};
use ecdsa::hazmat::{
    signing_outcome, verification_outcome, Backend, PointArithmetic, RandomBytes, SignPrimitive,
    VerifyPrimitive,
};
use ecdsa::sec1::{EncodedPoint, PublicKey};
use ecdsa::rfc6979::generate_k;
use ecdsa::verify::decoding_outcome;
use ecdsa::{Error, NistP256, SecretKey, Secp256k1, Signer, SigningKey, VerifyKey};

type NonZeroScalar = ecdsa::NonZeroScalar<NistP256>;
type Scalar = ecdsa::Scalar<NistP256>;
type Signature = ecdsa::Signature<NistP256>;
type U256 = [u64; 4];
type Point = Option<(U256, U256)>;

/// What the arithmetic below has to know of a curve `y^2 = x^3 + a x + b`.
struct Params {
    p: U256,
    a: U256,
    b: U256,
    gx: U256,
    gy: U256,
    n: U256,
}

const P256: Params = Params {
    p: [0xffff_ffff_ffff_ffff, 0x0000_0000_ffff_ffff, 0, 0xffff_ffff_0000_0001],
    a: [0xffff_ffff_ffff_fffc, 0x0000_0000_ffff_ffff, 0, 0xffff_ffff_0000_0001],
    b: [0x3bce_3c3e_27d2_604b, 0x651d_06b0_cc53_b0f6, 0xb3eb_bd55_7698_86bc, 0x5ac6_35d8_aa3a_93e7],
    gx: [
        0xf4a1_3945_d898_c296,
        0x7703_7d81_2deb_33a0,
        0xf8bc_e6e5_63a4_40f2,
        0x6b17_d1f2_e12c_4247,
    ],
    gy: [
        0xcbb6_4068_37bf_51f5,
        0x2bce_3357_6b31_5ece,
        0x8ee7_eb4a_7c0f_9e16,
        0x4fe3_42e2_fe1a_7f9b,
    ],
    n: [0xf3b9_cac2_fc63_2551, 0xbce6_faad_a717_9e84, 0xffff_ffff_ffff_ffff, 0xffff_ffff_0000_0000],
};

const K256: Params = Params {
    p: [0xffff_fffe_ffff_fc2f, 0xffff_ffff_ffff_ffff, 0xffff_ffff_ffff_ffff, 0xffff_ffff_ffff_ffff],
    a: [0, 0, 0, 0],
    b: [7, 0, 0, 0],
    gx: [
        0x59f2_815b_16f8_1798,
        0x029b_fcdb_2dce_28d9,
        0x55a0_6295_ce87_0b07,
        0x79be_667e_f9dc_bbac,
    ],
    gy: [
        0x9c47_d08f_fb10_d4b8,
        0xfd17_b448_a685_5419,
        0x5da4_fbfc_0e11_08a8,
        0x483a_da77_26a3_c465,
    ],
    n: [0xbfd2_5e8c_d036_4141, 0xbaae_dce6_af48_a03b, 0xffff_ffff_ffff_fffe, 0xffff_ffff_ffff_ffff],
};

const N: U256 = P256.n;
const GX: U256 = P256.gx;
const GY: U256 = P256.gy;
const ZERO: U256 = [0, 0, 0, 0];
const ONE: U256 = [1, 0, 0, 0];

fn from_be(bytes: &[u8; 32]) -> U256 {
    let mut out = ZERO;
    for i in 0..4 {
        let mut word = 0u64;
        for j in 0..8 {
            word = (word << 8) | bytes[8 * (3 - i) + j] as u64;
        }
        out[i] = word;
    }
    out
}

fn to_be(value: &U256) -> [u8; 32] {
    let mut out = [0u8; 32];
    for i in 0..4 {
        out[8 * (3 - i)..8 * (3 - i) + 8].copy_from_slice(&value[i].to_be_bytes());
    }
    out
}

fn hex32(text: &str) -> [u8; 32] {
    assert_eq!(text.len(), 64);
    let mut out = [0u8; 32];
    for i in 0..32 {
        out[i] = u8::from_str_radix(&text[2 * i..2 * i + 2], 16).unwrap();
    }
    out
}

fn geq(a: &U256, b: &U256) -> bool {
    for i in (0..4).rev() {
        if a[i] != b[i] {
            return a[i] > b[i];
        }
    }
    true
}

fn add_raw(a: &U256, b: &U256) -> (U256, bool) {
    let mut out = ZERO;
    let mut carry = 0u128;
    for i in 0..4 {
        let sum = a[i] as u128 + b[i] as u128 + carry;
        out[i] = sum as u64;
        carry = sum >> 64;
    }
    (out, carry != 0)
}

fn sub_raw(a: &U256, b: &U256) -> (U256, bool) {
    let mut out = ZERO;
    let mut borrow = false;
    for i in 0..4 {
        let (d1, b1) = a[i].overflowing_sub(b[i]);
        let (d2, b2) = d1.overflowing_sub(borrow as u64);
        out[i] = d2;
        borrow = b1 || b2;
    }
    (out, borrow)
}

fn add_m(a: &U256, b: &U256, m: &U256) -> U256 {
    let (sum, carry) = add_raw(a, b);
    if carry || geq(&sum, m) {
        sub_raw(&sum, m).0
    } else {
        sum
    }
}

fn sub_m(a: &U256, b: &U256, m: &U256) -> U256 {
    let (diff, borrow) = sub_raw(a, b);
    if borrow {
        add_raw(&diff, m).0
    } else {
        diff
    }
}

fn bit(value: &U256, i: usize) -> bool {
    (value[i / 64] >> (i % 64)) & 1 == 1
}

fn mul_m(a: &U256, b: &U256, m: &U256) -> U256 {
    let mut out = ZERO;
    for i in (0..256).rev() {
        out = add_m(&out, &out, m);
        if bit(b, i) {
            out = add_m(&out, a, m);
        }
    }
    out
}

fn pow_m(a: &U256, e: &U256, m: &U256) -> U256 {
    let mut out = ONE;
    for i in (0..256).rev() {
        out = mul_m(&out, &out, m);
        if bit(e, i) {
            out = mul_m(&out, a, m);
        }
    }
    out
}

fn is_even(value: &U256) -> bool {
    value[0] & 1 == 0
}

fn shift_right(value: &U256, carry: bool) -> U256 {
    let mut out = ZERO;
    for i in 0..4 {
        let high = if i < 3 { value[i + 1] << 63 } else { (carry as u64) << 63 };
        out[i] = (value[i] >> 1) | high;
    }
    out
}

/// Half of `value` modulo the odd number `m`.
fn half_m(value: &U256, m: &U256) -> U256 {
    if is_even(value) {
        shift_right(value, false)
    } else {
        let (sum, carry) = add_raw(value, m);
        shift_right(&sum, carry)
    }
}

/// The inverse of `a` modulo the odd prime `m`, by the binary form of
/// Euclid's algorithm.
fn inv_m(a: &U256, m: &U256) -> U256 {
    assert!(*a != ZERO && !geq(a, m));
    let (mut u, mut v) = (*a, *m);
    let (mut x1, mut x2) = (ONE, ZERO);
    while u != ONE && v != ONE {
        while is_even(&u) {
            u = shift_right(&u, false);
            x1 = half_m(&x1, m);
        }
        while is_even(&v) {
            v = shift_right(&v, false);
            x2 = half_m(&x2, m);
        }
        if geq(&u, &v) {
            u = sub_raw(&u, &v).0;
            x1 = sub_m(&x1, &x2, m);
        } else {
            v = sub_raw(&v, &u).0;
            x2 = sub_m(&x2, &x1, m);
        }
    }
    if u == ONE {
        x1
    } else {
        x2
    }
}

fn below(value: &U256, m: &U256) -> U256 {
    if geq(value, m) {
        sub_raw(value, m).0
    } else {
        *value
    }
}

fn point_add(c: &Params, p: &Point, q: &Point) -> Point {
    let (x1, y1) = match p {
        None => return *q,
        Some(point) => *point,
    };
    let (x2, y2) = match q {
        None => return *p,
        Some(point) => *point,
    };
    let slope = if x1 == x2 {
        if add_m(&y1, &y2, &c.p) == ZERO {
            return None;
        }
        let x_squared = mul_m(&x1, &x1, &c.p);
        let three_x_squared = add_m(&add_m(&x_squared, &x_squared, &c.p), &x_squared, &c.p);
        let numerator = add_m(&three_x_squared, &c.a, &c.p);
        mul_m(&numerator, &inv_m(&add_m(&y1, &y1, &c.p), &c.p), &c.p)
    } else {
        mul_m(&sub_m(&y2, &y1, &c.p), &inv_m(&sub_m(&x2, &x1, &c.p), &c.p), &c.p)
    };
    let x3 = sub_m(&sub_m(&mul_m(&slope, &slope, &c.p), &x1, &c.p), &x2, &c.p);
    let y3 = sub_m(&mul_m(&slope, &sub_m(&x1, &x3, &c.p), &c.p), &y1, &c.p);
    Some((x3, y3))
}

fn point_mul(c: &Params, k: &U256, p: &Point) -> Point {
    let mut out: Point = None;
    for i in (0..256).rev() {
        out = point_add(c, &out, &out);
        if bit(k, i) {
            out = point_add(c, &out, p);
        }
    }
    out
}

fn curve_rhs(c: &Params, x: &U256) -> U256 {
    let x_cubed = mul_m(&mul_m(x, x, &c.p), x, &c.p);
    add_m(&add_m(&x_cubed, &mul_m(&c.a, x, &c.p), &c.p), &c.b, &c.p)
}

fn on_curve(c: &Params, x: &U256, y: &U256) -> bool {
    !geq(x, &c.p) && !geq(y, &c.p) && mul_m(y, y, &c.p) == curve_rhs(c, x)
}

fn sign_with(c: &Params, d: &U256, k: &U256, z: &U256) -> Option<(U256, U256)> {
    let (x, _) = point_mul(c, k, &Some((c.gx, c.gy)))?;
    let r = below(&x, &c.n);
    let s = mul_m(&inv_m(k, &c.n), &add_m(z, &mul_m(&r, d, &c.n), &c.n), &c.n);
    Some((r, s))
}

fn verify_with(c: &Params, q: &(U256, U256), z: &U256, r: &U256, s: &U256) -> bool {
    if !on_curve(c, &q.0, &q.1) {
        return false;
    }
    let w = inv_m(s, &c.n);
    let u1 = mul_m(z, &w, &c.n);
    let u2 = mul_m(r, &w, &c.n);
    let sum = point_add(
        c,
        &point_mul(c, &u1, &Some((c.gx, c.gy))),
        &point_mul(c, &u2, &Some(*q)),
    );
    match sum {
        Some((x, _)) => below(&x, &c.n) == *r,
        None => false,
    }
}

fn decode_with(c: &Params, point: &EncodedPoint) -> Option<PublicKey> {
    let x_bytes = point.x()?;
    let x = from_be(&x_bytes);
    if geq(&x, &c.p) {
        return None;
    }
    let y = match point.y() {
        Some(y_bytes) => from_be(&y_bytes),
        None => {
            // p is 3 modulo 4: a square root is the power (p + 1) / 4.
            let (p_plus_one, carry) = add_raw(&c.p, &ONE);
            assert!(!carry);
            let mut exponent = ZERO;
            for i in 0..4 {
                let high = if i < 3 { p_plus_one[i + 1] << 62 } else { 0 };
                exponent[i] = (p_plus_one[i] >> 2) | high;
            }
            let root = pow_m(&curve_rhs(c, &x), &exponent, &c.p);
            let odd = point.as_bytes()[0] == 0x03;
            if (root[0] & 1 == 1) == odd {
                root
            } else {
                sub_m(&ZERO, &root, &c.p)
            }
        }
    };
    if on_curve(c, &x, &y) {
        Some(PublicKey::from_affine_coordinates(x_bytes, to_be(&y)))
    } else {
        None
    }
}

/// Arithmetic on the curve NIST P-256.
#[derive(Debug)]
struct P256Backend;

impl Backend for P256Backend {
    type Curve = NistP256;
}

impl SignPrimitive for P256Backend {
    fn try_sign_prehashed(
        secret_scalar: &Scalar,
        ephemeral_scalar: &Scalar,
        hashed_msg: &Scalar,
    ) -> Result<Signature, Error> {
        let d = from_be(&secret_scalar.to_bytes());
        let k = from_be(&ephemeral_scalar.to_bytes());
        let z = from_be(&hashed_msg.to_bytes());
        let (r, s) = sign_with(&P256, &d, &k, &z).ok_or(Error::SigningFailed)?;
        Signature::from_scalars(&to_be(&r), &to_be(&s)).map_err(|_| Error::SigningFailed)
    }
}

impl VerifyPrimitive for P256Backend {
    fn verify_prehashed(
        public_key: &PublicKey,
        hashed_msg: &Scalar,
        signature: &Signature,
    ) -> Result<(), Error> {
        let q = (from_be(&public_key.x), from_be(&public_key.y));
        let z = from_be(&hashed_msg.to_bytes());
        let r = from_be(&signature.r().to_bytes());
        let s = from_be(&signature.s().to_bytes());
        if verify_with(&P256, &q, &z, &r, &s) {
            Ok(())
        } else {
            Err(Error::VerificationFailed)
        }
    }
}

impl PointArithmetic for P256Backend {
    fn mul_by_generator(scalar: &Scalar) -> PublicKey {
        let (x, y) =
            point_mul(&P256, &from_be(&scalar.to_bytes()), &Some((P256.gx, P256.gy))).unwrap();
        PublicKey::from_affine_coordinates(to_be(&x), to_be(&y))
    }

    fn from_encoded_point(point: &EncodedPoint) -> Option<PublicKey> {
        decode_with(&P256, point)
    }
}

/// Arithmetic on the curve secp256k1.
#[derive(Debug)]
struct K256Backend;

impl Backend for K256Backend {
    type Curve = Secp256k1;
}

impl SignPrimitive for K256Backend {
    fn try_sign_prehashed(
        secret_scalar: &ecdsa::Scalar<Secp256k1>,
        ephemeral_scalar: &ecdsa::Scalar<Secp256k1>,
        hashed_msg: &ecdsa::Scalar<Secp256k1>,
    ) -> Result<ecdsa::Signature<Secp256k1>, Error> {
        let d = from_be(&secret_scalar.to_bytes());
        let k = from_be(&ephemeral_scalar.to_bytes());
        let z = from_be(&hashed_msg.to_bytes());
        let (r, s) = sign_with(&K256, &d, &k, &z).ok_or(Error::SigningFailed)?;
        ecdsa::Signature::from_scalars(&to_be(&r), &to_be(&s)).map_err(|_| Error::SigningFailed)
    }
}

impl VerifyPrimitive for K256Backend {
    fn verify_prehashed(
        public_key: &PublicKey,
        hashed_msg: &ecdsa::Scalar<Secp256k1>,
        signature: &ecdsa::Signature<Secp256k1>,
    ) -> Result<(), Error> {
        let q = (from_be(&public_key.x), from_be(&public_key.y));
        let z = from_be(&hashed_msg.to_bytes());
        let r = from_be(&signature.r().to_bytes());
        let s = from_be(&signature.s().to_bytes());
        if verify_with(&K256, &q, &z, &r, &s) {
            Ok(())
        } else {
            Err(Error::VerificationFailed)
        }
    }
}

impl PointArithmetic for K256Backend {
    fn mul_by_generator(scalar: &ecdsa::Scalar<Secp256k1>) -> PublicKey {
        let (x, y) =
            point_mul(&K256, &from_be(&scalar.to_bytes()), &Some((K256.gx, K256.gy))).unwrap();
        PublicKey::from_affine_coordinates(to_be(&x), to_be(&y))
    }

    fn from_encoded_point(point: &EncodedPoint) -> Option<PublicKey> {
        decode_with(&K256, point)
    }
}

/// A backend whose primitives always fail.
#[derive(Debug)]
struct Broken;

impl Backend for Broken {
    type Curve = NistP256;
}

impl SignPrimitive for Broken {
    fn try_sign_prehashed(
        _secret_scalar: &Scalar,
        _ephemeral_scalar: &Scalar,
        _hashed_msg: &Scalar,
    ) -> Result<Signature, Error> {
        Err(Error::InvalidKey)
    }
}

impl VerifyPrimitive for Broken {
    fn verify_prehashed(
        _public_key: &PublicKey,
        _hashed_msg: &Scalar,
        _signature: &Signature,
    ) -> Result<(), Error> {
        Err(Error::InvalidKey)
    }
}

impl PointArithmetic for Broken {
    fn mul_by_generator(_scalar: &Scalar) -> PublicKey {
        PublicKey::from_affine_coordinates(to_be(&GX), to_be(&GY))
    }

    fn from_encoded_point(point: &EncodedPoint) -> Option<PublicKey> {
        decode_with(&P256, point)
    }
}

/// Hands out the blocks it was given, one per call, then blocks of `0x42`.
struct Scripted {
    blocks: Vec<[u8; 32]>,
    calls: usize,
}

impl RandomBytes for Scripted {
    fn fill_bytes(&mut self, dest: &mut [u8; 32]) {
        *dest = if self.calls < self.blocks.len() { self.blocks[self.calls] } else { [0x42; 32] };
        self.calls += 1;
    }
}

const RFC_KEY: &str = "c9afa9d845ba75166b5c215767b1d6934e50c3db36e89b127b8a622b120f6721";
const RFC_QX: &str = "60fed4ba255a9d31c961eb74c6356d68c049b8923b61fa6ce669622e60f29fb6";
const RFC_QY: &str = "7903fe1008b8bc99a41ae9e95628bc64f2f1b20c2d7e9f5177a3c294d4462299";
const SHA256_SAMPLE: &str = "af2bdbe1aa9b6ec1e2ade1d694f41fc71a831d0268e9891562113d8a62add1bf";

fn one_key() -> SigningKey<P256Backend> {
    let mut bytes = [0u8; 32];
    bytes[31] = 1;
    SigningKey::new(&bytes).unwrap()
}

fn vector() -> TestVector {
    TestVector {
        d: &[
            0x51, 0x9b, 0x42, 0x3d, 0x71, 0x5f, 0x8b, 0x58, 0x1f, 0x4f, 0xa8, 0xee, 0x59, 0xf4,
            0x77, 0x1a, 0x5b, 0x44, 0xc8, 0x13, 0x0b, 0x4e, 0x3e, 0xac, 0xca, 0x54, 0xa5, 0x6d,
            0xda, 0x72, 0xb4, 0x64,
        ],
        q_x: &[
            0x1c, 0xcb, 0xe9, 0x1c, 0x07, 0x5f, 0xc7, 0xf4, 0xf0, 0x33, 0xbf, 0xa2, 0x48, 0xdb,
            0x8f, 0xcc, 0xd3, 0x56, 0x5d, 0xe9, 0x4b, 0xbf, 0xb1, 0x2f, 0x3c, 0x59, 0xff, 0x46,
            0xc2, 0x71, 0xbf, 0x83,
        ],
        q_y: &[
            0xce, 0x40, 0x14, 0xc6, 0x88, 0x11, 0xf9, 0xa2, 0x1a, 0x1f, 0xdb, 0x2c, 0x0e, 0x61,
            0x13, 0xe0, 0x6d, 0xb7, 0xca, 0x93, 0xb7, 0x40, 0x4e, 0x78, 0xdc, 0x7c, 0xcd, 0x5c,
            0xa8, 0x9a, 0x4c, 0xa9,
        ],
        k: &[
            0x94, 0xa1, 0xbb, 0xb1, 0x4b, 0x90, 0x6a, 0x61, 0xa2, 0x80, 0xf2, 0x45, 0xf9, 0xe9,
            0x3c, 0x7f, 0x3b, 0x4a, 0x62, 0x47, 0x82, 0x4f, 0x5d, 0x33, 0xb9, 0x67, 0x07, 0x87,
            0x64, 0x2a, 0x68, 0xde,
        ],
        m: &[
            0x44, 0xac, 0xf6, 0xb7, 0xe3, 0x6c, 0x13, 0x42, 0xc2, 0xc5, 0x89, 0x72, 0x04, 0xfe,
            0x09, 0x50, 0x4e, 0x1e, 0x2e, 0xfb, 0x1a, 0x90, 0x03, 0x77, 0xdb, 0xc4, 0xe7, 0xa6,
            0xa1, 0x33, 0xec, 0x56,
        ],
        r: &[
            0xf3, 0xac, 0x80, 0x61, 0xb5, 0x14, 0x79, 0x5b, 0x88, 0x43, 0xe3, 0xd6, 0x62, 0x95,
            0x27, 0xed, 0x2a, 0xfd, 0x6b, 0x1f, 0x6a, 0x55, 0x5a, 0x7a, 0xca, 0xbb, 0x5e, 0x6f,
            0x79, 0xc8, 0xc2, 0xac,
        ],
        s: &[
            0x8b, 0xf7, 0x78, 0x19, 0xca, 0x05, 0xa6, 0xb2, 0x78, 0x6c, 0x76, 0x26, 0x2b, 0xf7,
            0x37, 0x1c, 0xef, 0x97, 0xb2, 0x18, 0xe9, 0x6f, 0x17, 0x5a, 0x3c, 0xcd, 0xda, 0x2a,
            0xcc, 0x05, 0x89, 0x03,
        ],
    }
}

#[test]
fn backend_knows_the_generator() {
    for value in [ONE, [2, 0, 0, 0], GX, sub_raw(&N, &ONE).0] {
        assert_eq!(mul_m(&value, &inv_m(&value, &N), &N), ONE);
        assert_eq!(mul_m(&value, &inv_m(&value, &P256.p), &P256.p), ONE);
        let exponent = sub_raw(&K256.n, &[2, 0, 0, 0]).0;
        assert_eq!(inv_m(&value, &K256.n), pow_m(&value, &exponent, &K256.n));
    }
    assert!(on_curve(&P256, &GX, &GY));
    assert_eq!(point_mul(&P256, &N, &Some((GX, GY))), None);
    assert!(on_curve(&K256, &K256.gx, &K256.gy));
    assert_eq!(point_mul(&K256, &K256.n, &Some((K256.gx, K256.gy))), None);
    let key = one_key().verify_key().unwrap().to_public_key();
    assert_eq!(key.x, to_be(&GX));
    assert_eq!(key.y, to_be(&GY));
}

#[test]
fn fixed_key_and_zero_digest_give_the_reference_signature() {
    let key = one_key();
    let digest = [0u8; 32];
    let signature = key.try_sign_digest(&digest).unwrap();
    assert_eq!(
        signature.r().to_bytes(),
        hex32("0e6b3bb68d65aa645104de3abb94cbc6f568e2d55ea511d0e6d300e177002159")
    );
    assert_eq!(
        signature.s().to_bytes(),
        hex32("167afc0b518bd63853ccc1b5292e27024c557c8924ca3dec81d59651b9021794")
    );
    let verify_key = key.verify_key().unwrap();
    assert_eq!(verify_key.verify_digest(&digest, &signature), Ok(()));
    let mut flipped = digest;
    flipped[31] ^= 1;
    assert_eq!(verify_key.verify_digest(&flipped, &signature), Err(Error::VerificationFailed));
}

#[test]
fn rfc6979_sample_signature() {
    let key: SigningKey<P256Backend> = SigningKey::new(&hex32(RFC_KEY)).unwrap();
    let signature = key.try_sign_digest(&hex32(SHA256_SAMPLE)).unwrap();
    let mut expected = [0u8; 64];
    expected[..32].copy_from_slice(&hex32(
        "efd48b2aacb6a8fd1140dd9cd45e81d69d2c877b56aaf991c34d0ea84eaf3716",
    ));
    expected[32..].copy_from_slice(&hex32(
        "f7cb1c942d657c41d436c7a1b6e29f65f3e900dbb9aff4064dc4ab2f843acda8",
    ));
    assert_eq!(signature.to_bytes(), expected);
    let public_key = key.verify_key().unwrap().to_public_key();
    assert_eq!(public_key.x, hex32(RFC_QX));
    assert_eq!(public_key.y, hex32(RFC_QY));
}

#[test]
fn messages_are_hashed_with_sha256() {
    let key: SigningKey<P256Backend> = SigningKey::new(&hex32(RFC_KEY)).unwrap();
    let from_message = key.try_sign(b"sample").unwrap();
    let from_digest = key.try_sign_digest(&hex32(SHA256_SAMPLE)).unwrap();
    assert_eq!(from_message, from_digest);
    let test = key.try_sign(b"test").unwrap();
    assert_eq!(
        test.r().to_bytes(),
        hex32("f1abb023518351cd71d881567b1ea663ed3efcf6c5132b354f28d3b0b7d38367")
    );
    assert_eq!(
        test.s().to_bytes(),
        hex32("019f4113742a2b14bd25926b49c649155f267e60d3814b4c0cc84250e46f0083")
    );
    let verify_key = key.verify_key().unwrap();
    assert_eq!(verify_key.verify(b"sample", &from_message), Ok(()));
    assert_eq!(verify_key.verify(b"test", &test), Ok(()));
    assert_eq!(verify_key.verify(b"sample", &test), Err(Error::VerificationFailed));
}

#[test]
fn signing_twice_gives_the_same_signature() {
    let key: SigningKey<P256Backend> = SigningKey::new(&hex32(RFC_KEY)).unwrap();
    let digest = [0x5a; 32];
    let first = key.try_sign_digest(&digest).unwrap();
    let second = key.try_sign_digest(&digest).unwrap();
    assert_eq!(first, second);
    assert_eq!(first.to_bytes(), second.to_bytes());
}

#[test]
fn the_primitive_is_handed_the_nonce_and_the_reduced_digest() {
    // A backend that signs with the nonce and the message scalar signs as
    // the key does.
    for digest in [hex32(SHA256_SAMPLE), [0xff; 32], [0x00; 32]] {
        let secret = Scalar::from_repr(&hex32(RFC_KEY)).unwrap();
        let k = generate_k(&secret, &digest, &[]).unwrap();
        let z = Scalar::from_digest(&digest);
        let direct = P256Backend::try_sign_prehashed(&secret, k.as_scalar(), &z);
        let key: SigningKey<P256Backend> = SigningKey::new(&hex32(RFC_KEY)).unwrap();
        assert_eq!(key.try_sign_digest(&digest), direct);
    }
}

#[test]
fn signatures_verify_under_the_matching_key() {
    let digests: [[u8; 32]; 3] = [[0x00; 32], [0xff; 32], hex32(SHA256_SAMPLE)];
    let keys = [hex32(RFC_KEY), to_be(&ONE), to_be(&sub_raw(&N, &ONE).0)];
    for key_bytes in keys.iter() {
        let key: SigningKey<P256Backend> = SigningKey::new(key_bytes).unwrap();
        let verify_key = key.verify_key().unwrap();
        for digest in digests.iter() {
            let signature = key.try_sign_digest(digest).unwrap();
            assert_eq!(verify_key.verify_digest(digest, &signature), Ok(()));
        }
    }
}

#[test]
fn signatures_do_not_verify_under_another_key() {
    let key: SigningKey<P256Backend> = SigningKey::new(&hex32(RFC_KEY)).unwrap();
    let other = one_key().verify_key().unwrap();
    let digest = hex32(SHA256_SAMPLE);
    let signature = key.try_sign_digest(&digest).unwrap();
    assert_eq!(other.verify_digest(&digest, &signature), Err(Error::VerificationFailed));
}

#[test]
fn a_flipped_bit_in_r_or_s_is_rejected() {
    let key: SigningKey<P256Backend> = SigningKey::new(&hex32(RFC_KEY)).unwrap();
    let verify_key = key.verify_key().unwrap();
    let digest = hex32(SHA256_SAMPLE);
    let encoded = key.try_sign_digest(&digest).unwrap().to_bytes();
    for position in 0usize..512 {
        let mut tampered = encoded;
        tampered[position / 8] ^= 1 << (position % 8);
        let outcome = match Signature::from_bytes(&tampered) {
            Ok(signature) => verify_key.verify_digest(&digest, &signature),
            Err(e) => Err(e),
        };
        assert_eq!(outcome, Err(Error::VerificationFailed));
    }
}

#[test]
fn a_signature_and_its_negation_both_verify() {
    // Here s is (n - 1) / 2, so that flipping its lowest bit gives n - s.
    let mut sec1 = vec![0x04u8];
    sec1.extend_from_slice(&hex32(RFC_QX));
    sec1.extend_from_slice(&hex32(RFC_QY));
    let verify_key: VerifyKey<P256Backend> = VerifyKey::from_sec1_bytes(&sec1).unwrap();
    let digest = hex32("d544275eae97392db199744ae6cccc8a6bf99945c1e6c4a0c44c6625bc67120e");
    let r = hex32("f3ac8061b514795b8843e3d6629527ed2afd6b1f6a555a7acabb5e6f79c8c2ac");
    let s = hex32("7fffffff800000007fffffffffffffffde737d56d38bcf4279dce5617e3192a8");
    let mut negated = s;
    negated[31] ^= 1;
    let signature = Signature::from_scalars(&r, &s).unwrap();
    let other = Signature::from_scalars(&r, &negated).unwrap();
    assert_ne!(signature, other);
    assert_eq!(verify_key.verify_digest(&digest, &signature), Ok(()));
    assert_eq!(verify_key.verify_digest(&digest, &other), Ok(()));
}

#[test]
fn hedged_signatures_differ_and_verify() {
    let key = one_key();
    let verify_key = key.verify_key().unwrap();
    let digest = [0u8; 32];
    let mut entropy = [0u8; 32];
    for (i, byte) in entropy.iter_mut().enumerate() {
        *byte = i as u8;
    }
    let hedged = key.try_sign_digest_with_entropy(&entropy, &digest).unwrap();
    assert_eq!(
        hedged.r().to_bytes(),
        hex32("b91d2bcde1977f612a5d23e79b1de87e0e3fd6578125d9df99cdd3bb27835bb0")
    );
    assert_eq!(
        hedged.s().to_bytes(),
        hex32("bf904974dab07644ef5a3f744f09a6d926efb6febbc49486472de2f50bc99bb5")
    );
    let plain = key.try_sign_digest(&digest).unwrap();
    assert_ne!(hedged, plain);
    assert_eq!(verify_key.verify_digest(&digest, &hedged), Ok(()));

    let mut rng = Scripted { blocks: vec![entropy, [0x11; 32]], calls: 0 };
    let first = key.try_sign_digest_with_rng(&mut rng, &digest).unwrap();
    let second = key.try_sign_digest_with_rng(&mut rng, &digest).unwrap();
    assert_eq!(rng.calls, 2);
    assert_eq!(first, hedged);
    assert_ne!(first, second);
    assert_eq!(verify_key.verify_digest(&digest, &second), Ok(()));

    let from_message = key.try_sign_with_rng(&mut rng, b"sample").unwrap();
    assert_eq!(rng.calls, 3);
    assert_eq!(verify_key.verify(b"sample", &from_message), Ok(()));
}

#[test]
fn key_bytes_are_validated() {
    let too_short = [1u8; 31];
    let too_long = [1u8; 33];
    assert_eq!(SigningKey::<P256Backend>::new(&too_short).err(), Some(Error::InvalidKey));
    assert_eq!(SigningKey::<P256Backend>::new(&too_long).err(), Some(Error::InvalidKey));
    assert_eq!(SigningKey::<P256Backend>::new(&[]).err(), Some(Error::InvalidKey));
    assert_eq!(SigningKey::<P256Backend>::new(&[0u8; 32]).err(), Some(Error::InvalidKey));
    assert_eq!(SigningKey::<P256Backend>::new(&to_be(&N)).err(), Some(Error::InvalidKey));
    assert_eq!(SigningKey::<P256Backend>::new(&[0xff; 32]).err(), Some(Error::InvalidKey));
    let largest = to_be(&sub_raw(&N, &ONE).0);
    let key: SigningKey<P256Backend> = SigningKey::new(&largest).unwrap();
    assert_eq!(key.to_bytes(), largest);
    assert_eq!(one_key().to_bytes(), to_be(&ONE));
}

#[test]
fn random_keys_skip_refused_draws() {
    let mut rng = Scripted { blocks: vec![[0xff; 32], [0x00; 32], hex32(RFC_KEY)], calls: 0 };
    let key: SigningKey<P256Backend> = SigningKey::random(&mut rng).unwrap();
    assert_eq!(rng.calls, 3);
    assert_eq!(key.to_bytes(), hex32(RFC_KEY));
    let next: SigningKey<P256Backend> = SigningKey::random(&mut rng).unwrap();
    assert_eq!(rng.calls, 4);
    assert_eq!(next.to_bytes(), [0x42; 32]);
}

#[test]
fn from_nonzero_scalar_keeps_the_scalar() {
    let scalar = NonZeroScalar::from_repr(&hex32(RFC_KEY)).unwrap();
    let key: SigningKey<P256Backend> = SigningKey::from_nonzero_scalar(scalar);
    assert_eq!(key.to_bytes(), hex32(RFC_KEY));
}

#[test]
fn zeroize_overwrites_the_secret() {
    for key_bytes in [hex32(RFC_KEY), to_be(&ONE), to_be(&sub_raw(&N, &ONE).0)] {
        let mut key: SigningKey<P256Backend> = SigningKey::new(&key_bytes).unwrap();
        assert!(!key.is_wiped());
        assert_eq!(key.to_bytes(), key_bytes);
        key.zeroize();
        assert!(key.is_wiped());
        assert_eq!(key.to_bytes(), [0u8; 32]);
        assert_ne!(key.to_bytes(), key_bytes);
    }
    let mut secret = SecretKey::from_bytes(&hex32(RFC_KEY)).unwrap();
    secret.zeroize();
    assert_eq!(secret.as_bytes(), &[0u8; 32]);
}

#[test]
fn a_wiped_key_is_no_key() {
    let digest = [0u8; 32];
    let mut key = one_key();
    assert!(key.try_sign_digest(&digest).is_ok());
    key.zeroize();
    assert_eq!(key.try_sign_digest(&digest), Err(Error::SigningFailed));
    assert_eq!(key.try_sign(b"sample"), Err(Error::SigningFailed));
    assert_eq!(
        key.try_sign_digest_with_entropy(&[7; 32], &digest),
        Err(Error::SigningFailed)
    );
    let mut rng = Scripted { blocks: vec![], calls: 0 };
    assert_eq!(key.try_sign_digest_with_rng(&mut rng, &digest), Err(Error::SigningFailed));
    assert_eq!(key.verify_key().err(), Some(Error::InvalidKey));

    let secret = SecretKey::from_bytes(&hex32(RFC_KEY)).unwrap();
    let mut signer: Signer<P256Backend> = Signer::new(&secret).unwrap();
    assert!(signer.try_sign_digest(&digest).is_ok());
    signer.zeroize();
    assert_eq!(signer.try_sign_digest(&digest), Err(Error::SigningFailed));
    assert_eq!(signer.try_sign(b"sample"), Err(Error::SigningFailed));
    assert_eq!(signer.try_sign_with_rng(&mut rng, b"sample"), Err(Error::SigningFailed));
}

#[test]
fn signer_signs_like_the_signing_key() {
    let secret = SecretKey::from_bytes(&hex32(RFC_KEY)).unwrap();
    assert_eq!(secret.as_bytes(), &hex32(RFC_KEY));
    let signer: Signer<P256Backend> = Signer::new(&secret).unwrap();
    let key: SigningKey<P256Backend> = SigningKey::new(&hex32(RFC_KEY)).unwrap();
    let digest = hex32(SHA256_SAMPLE);
    assert_eq!(signer.try_sign_digest(&digest), key.try_sign_digest(&digest));
    assert_eq!(signer.try_sign(b"sample"), key.try_sign(b"sample"));
    let mut rng = Scripted { blocks: vec![[7; 32], [7; 32], [9; 32], [9; 32]], calls: 0 };
    let a = signer.try_sign_digest_with_rng(&mut rng, &digest);
    let b = key.try_sign_digest_with_rng(&mut rng, &digest);
    assert_eq!(a, b);
    let c = signer.try_sign_with_rng(&mut rng, b"sample");
    let d = key.try_sign_with_rng(&mut rng, b"sample");
    assert_eq!(c, d);
    assert_eq!(c, key.try_sign_digest_with_entropy(&[9; 32], &digest));
}

#[test]
fn signer_refuses_invalid_secret_keys() {
    assert_eq!(SecretKey::from_bytes(&[1u8; 31]).err(), Some(Error::InvalidKey));
    assert_eq!(SecretKey::from_bytes(&[1u8; 33]).err(), Some(Error::InvalidKey));
    let zero = SecretKey::from_bytes(&[0u8; 32]).unwrap();
    assert_eq!(Signer::<P256Backend>::new(&zero).err(), Some(Error::InvalidKey));
    let order = SecretKey::from_bytes(&to_be(&N)).unwrap();
    assert_eq!(Signer::<P256Backend>::new(&order).err(), Some(Error::InvalidKey));
}

#[test]
fn a_failing_primitive_gives_one_opaque_error() {
    let key: SigningKey<Broken> = SigningKey::new(&hex32(RFC_KEY)).unwrap();
    assert_eq!(key.try_sign_digest(&[0u8; 32]), Err(Error::SigningFailed));
    assert_eq!(key.try_sign(b"sample"), Err(Error::SigningFailed));
    let mut rng = Scripted { blocks: vec![], calls: 0 };
    assert_eq!(key.try_sign_digest_with_rng(&mut rng, &[0u8; 32]), Err(Error::SigningFailed));
    let signature = one_key().try_sign_digest(&[0u8; 32]).unwrap();
    let verify_key: VerifyKey<Broken> = VerifyKey::from_public_key(
        PublicKey::from_affine_coordinates(to_be(&GX), to_be(&GY)),
    );
    assert_eq!(
        verify_key.verify_digest(&[0u8; 32], &signature),
        Err(Error::VerificationFailed)
    );
    assert_eq!(verify_key.verify(b"sample", &signature), Err(Error::VerificationFailed));
}

#[test]
fn outcomes_are_mapped() {
    let signature = one_key().try_sign_digest(&[0u8; 32]).unwrap();
    assert_eq!(signing_outcome(Ok(signature)), Ok(signature));
    assert_eq!(signing_outcome::<NistP256>(Err(Error::InvalidKey)), Err(Error::SigningFailed));
    assert_eq!(
        signing_outcome::<NistP256>(Err(Error::VerificationFailed)),
        Err(Error::SigningFailed)
    );
    assert_eq!(verification_outcome(Ok(())), Ok(()));
    assert_eq!(verification_outcome(Err(Error::InvalidKey)), Err(Error::VerificationFailed));
    assert_eq!(verification_outcome(Err(Error::SigningFailed)), Err(Error::VerificationFailed));
    let point = PublicKey::from_affine_coordinates(to_be(&GX), to_be(&GY));
    let key = decoding_outcome::<P256Backend>(Some(point)).unwrap();
    assert_eq!(key.to_public_key(), point);
    assert_eq!(decoding_outcome::<P256Backend>(None).err(), Some(Error::InvalidKey));
}

#[test]
fn verify_keys_are_read_from_sec1() {
    let mut uncompressed = vec![0x04u8];
    uncompressed.extend_from_slice(&hex32(RFC_QX));
    uncompressed.extend_from_slice(&hex32(RFC_QY));
    let key: VerifyKey<P256Backend> = VerifyKey::from_sec1_bytes(&uncompressed).unwrap();
    assert_eq!(key.to_public_key().x, hex32(RFC_QX));
    assert_eq!(key.to_public_key().y, hex32(RFC_QY));
    assert_eq!(key.to_encoded_point(false).as_bytes(), &uncompressed[..]);

    let mut compressed = vec![0x03u8];
    compressed.extend_from_slice(&hex32(RFC_QX));
    assert_eq!(key.to_encoded_point(true).as_bytes(), &compressed[..]);
    let again: VerifyKey<P256Backend> = VerifyKey::from_sec1_bytes(&compressed).unwrap();
    assert!(again.eq(&key));
    let from_point: VerifyKey<P256Backend> =
        VerifyKey::from_encoded_point(&EncodedPoint::from_bytes(&compressed).unwrap()).unwrap();
    assert!(from_point.eq(&key));
    assert!(!key.eq(&one_key().verify_key().unwrap()));

    let signing_key: SigningKey<P256Backend> = SigningKey::new(&hex32(RFC_KEY)).unwrap();
    let signature = signing_key.try_sign(b"sample").unwrap();
    assert_eq!(again.verify(b"sample", &signature), Ok(()));
}

#[test]
fn bad_sec1_keys_are_refused() {
    let identity = [0x00u8];
    assert_eq!(VerifyKey::<P256Backend>::from_sec1_bytes(&identity).err(), Some(Error::InvalidKey));
    let point = EncodedPoint::from_bytes(&identity).unwrap();
    assert_eq!(VerifyKey::<P256Backend>::from_encoded_point(&point).err(), Some(Error::InvalidKey));
    assert_eq!(VerifyKey::<P256Backend>::from_sec1_bytes(&[]).err(), Some(Error::InvalidKey));
    let refused = Some(Error::InvalidKey);
    assert_eq!(VerifyKey::<P256Backend>::from_sec1_bytes(&[0x05; 65]).err(), refused);
    let mut short = vec![0x04u8];
    short.extend_from_slice(&hex32(RFC_QX));
    assert_eq!(VerifyKey::<P256Backend>::from_sec1_bytes(&short).err(), Some(Error::InvalidKey));
    let mut off_curve = vec![0x04u8];
    off_curve.extend_from_slice(&hex32(RFC_QX));
    off_curve.extend_from_slice(&hex32(RFC_QX));
    assert_eq!(VerifyKey::<P256Backend>::from_sec1_bytes(&off_curve).err(), refused);
}

#[test]
fn ecdsa_signing() {
    assert!(signing_vector_passes::<P256Backend>(&vector()));
    assert!(!signing_vector_passes::<Broken>(&vector()));
    let mut wrong = vector();
    wrong.r = wrong.s;
    assert!(!signing_vector_passes::<P256Backend>(&wrong));
    let mut short = vector();
    short.k = &[1, 2, 3];
    assert!(!signing_vector_passes::<P256Backend>(&short));
}

#[test]
fn ecdsa_verify_success() {
    assert!(verification_vector_passes::<P256Backend>(&vector()));
    assert!(!verification_vector_passes::<Broken>(&vector()));
    let mut short = vector();
    short.q_x = &[4];
    assert!(!verification_vector_passes::<P256Backend>(&short));
}

#[test]
fn ecdsa_verify_invalid_s() {
    assert!(tampered_vector_rejected::<P256Backend>(&vector()));
    assert!(tampered_vector_rejected::<Broken>(&vector()));
    // A vector that does not decode as it stands shows nothing.
    let mut short = vector();
    short.r = &[1];
    assert!(!tampered_vector_rejected::<P256Backend>(&short));
}

#[test]
fn vector_keys_are_read_by_the_backend() {
    // The x-coordinate twice is no point of the curve.
    let mut off_curve = vector();
    off_curve.q_y = off_curve.q_x;
    assert!(decode_vector::<NistP256>(&off_curve, false).is_some());
    assert!(!verification_vector_passes::<P256Backend>(&off_curve));
    assert!(!tampered_vector_rejected::<P256Backend>(&off_curve));
}

#[test]
fn vectors_decode() {
    let v = vector();
    let (public_key, z, signature) = decode_vector::<NistP256>(&v, false).unwrap();
    assert_eq!(&public_key.x[..], v.q_x);
    assert_eq!(&public_key.y[..], v.q_y);
    assert_eq!(&z.to_bytes()[..], v.m);
    assert!(matches_vector(&signature, &v));
    let (_, _, flipped) = decode_vector::<NistP256>(&v, true).unwrap();
    assert!(!matches_vector(&flipped, &v));
    assert_eq!(flipped.r(), signature.r());
    let mut expected_s = [0u8; 32];
    expected_s.copy_from_slice(v.s);
    expected_s[0] ^= 1;
    assert_eq!(flipped.s().to_bytes(), expected_s);
    let mut short = vector();
    short.s = &[];
    assert!(decode_vector::<NistP256>(&short, false).is_none());
    assert!(!matches_vector(&signature, &short));
}

#[test]
fn secp256k1_reference_signature() {
    let mut one = [0u8; 32];
    one[31] = 1;
    let key: SigningKey<K256Backend> = SigningKey::new(&one).unwrap();
    let public_key = key.verify_key().unwrap().to_public_key();
    assert_eq!(public_key.x, to_be(&K256.gx));
    assert_eq!(public_key.y, to_be(&K256.gy));
    let signature = key.try_sign(b"Satoshi Nakamoto").unwrap();
    assert_eq!(
        signature.r().to_bytes(),
        hex32("934b1ea10a4b3c1757e2b0c017d0b6143ce3c9a7e6a4a49860d7a6ab210ee3d8")
    );
    assert_eq!(
        signature.s().to_bytes(),
        hex32("dbbd3162d46e9f9bef7feb87c16dc13b4f6568a87f4e83f728e2443ba586675c")
    );
    let verify_key = key.verify_key().unwrap();
    assert_eq!(verify_key.verify(b"Satoshi Nakamoto", &signature), Ok(()));
    assert_eq!(
        verify_key.verify(b"Satoshi Nakamotp", &signature),
        Err(Error::VerificationFailed)
    );
}

#[test]
fn secp256k1_keys_and_round_trips() {
    let key: SigningKey<K256Backend> = SigningKey::new(&hex32(RFC_KEY)).unwrap();
    let verify_key = key.verify_key().unwrap();
    let public_key = verify_key.to_public_key();
    assert_eq!(
        public_key.x,
        hex32("2c8c31fc9f990c6b55e3865a184a4ce50e09481f2eaeb3e60ec1cea13a6ae645")
    );
    assert_eq!(
        public_key.y,
        hex32("64b95e4fdb6948c0386e189b006a29f686769b011704275e4459822dc3328085")
    );
    let signature = key.try_sign_digest(&hex32(SHA256_SAMPLE)).unwrap();
    assert_eq!(
        signature.r().to_bytes(),
        hex32("432310e32cb80eb6503a26ce83cc165c783b870845fb8aad6d970889fcd7a6c8")
    );
    assert_eq!(
        signature.s().to_bytes(),
        hex32("530128b6b81c548874a6305d93ed071ca6e05074d85863d4056ce89b02bfab69")
    );
    for digest in [[0x00u8; 32], [0xff; 32], hex32(SHA256_SAMPLE)] {
        let signature = key.try_sign_digest(&digest).unwrap();
        assert_eq!(verify_key.verify_digest(&digest, &signature), Ok(()));
    }
    let compressed = verify_key.to_encoded_point(true);
    let again: VerifyKey<K256Backend> = VerifyKey::from_encoded_point(&compressed).unwrap();
    assert!(again.eq(&verify_key));
    // The order of one curve is no key of the other.
    let p256_order = to_be(&P256.n);
    assert!(SigningKey::<K256Backend>::new(&p256_order).is_ok());
    assert_eq!(SigningKey::<P256Backend>::new(&p256_order).err(), Some(Error::InvalidKey));
    assert_eq!(
        SigningKey::<K256Backend>::new(&to_be(&K256.n)).err(),
        Some(Error::InvalidKey)
    );
}



/// A fixed sequence of blocks that look random.
fn blocks(count: usize) -> Vec<[u8; 32]> {
    let mut state: u64 = 0x9e37_79b9_7f4a_7c15;
    let mut out = Vec::new();
    for _ in 0..count {
        let mut block = [0u8; 32];
        for byte in block.iter_mut() {
            state = state.wrapping_mul(6364136223846793005).wrapping_add(1442695040888963407);
            *byte = (state >> 56) as u8;
        }
        out.push(block);
    }
    out
}

#[test]
fn sampled_signatures_verify_and_are_repeatable() {
    let sample = blocks(24);
    for pair in sample.chunks(2) {
        let mut key_bytes = pair[0];
        key_bytes[0] &= 0x7f;
        let digest = pair[1];
        let key: SigningKey<P256Backend> = SigningKey::new(&key_bytes).unwrap();
        let signature = key.try_sign_digest(&digest).unwrap();
        assert_eq!(key.try_sign_digest(&digest), Ok(signature));
        assert_eq!(key.verify_key().unwrap().verify_digest(&digest, &signature), Ok(()));
        assert_eq!(Signature::from_bytes(&signature.to_bytes()), Ok(signature));

        let other: SigningKey<K256Backend> = SigningKey::new(&key_bytes).unwrap();
        let signature = other.try_sign_digest(&digest).unwrap();
        assert_eq!(other.try_sign_digest(&digest), Ok(signature));
        assert_eq!(other.verify_key().unwrap().verify_digest(&digest, &signature), Ok(()));
    }
}

#[test]
fn sampled_hedged_signatures_are_distinct() {
    let key = one_key();
    let verify_key = key.verify_key().unwrap();
    let digest = hex32(SHA256_SAMPLE);
    let mut seen: Vec<Signature> = vec![key.try_sign_digest(&digest).unwrap()];
    for entropy in blocks(16) {
        let signature = key.try_sign_digest_with_entropy(&entropy, &digest).unwrap();
        assert_eq!(verify_key.verify_digest(&digest, &signature), Ok(()));
        assert!(!seen.contains(&signature));
        seen.push(signature);
    }
}

#[test]
fn dropping_keys_runs_the_wipe() {
    let key: SigningKey<P256Backend> = SigningKey::new(&hex32(RFC_KEY)).unwrap();
    drop(key);
    let secret = SecretKey::from_bytes(&hex32(RFC_KEY)).unwrap();
    let signer: Signer<P256Backend> = Signer::new(&secret).unwrap();
    drop(secret);
    assert!(signer.try_sign_digest(&[0u8; 32]).is_ok());
    drop(signer);
}
