//! Public keys and their SEC1 encoding.
//!
//! A public key is held as its two affine coordinates. The encoding, which
//! the `elliptic-curve` crate reads and writes, is one tag byte followed by
//! the x-coordinate and, when it is not compressed, the y-coordinate.

use crate::error::Error;
use elliptic_curve::dev::FieldBytes;
use vstd::prelude::*;

verus! {

/// Whether `bytes` has the shape of a SEC1 point: tag `0x00` alone for the
/// identity, tag `0x02` or `0x03` and thirty-two bytes for a compressed
/// point, tag `0x04` and sixty-four bytes for an uncompressed one.
pub open spec fn sec1_well_formed(bytes: Seq<u8>) -> bool {
    bytes.len() >= 1 && {
        ||| bytes[0] == 0x00 && bytes.len() == 1
        ||| (bytes[0] == 0x02 || bytes[0] == 0x03) && bytes.len() == 33
        ||| bytes[0] == 0x04 && bytes.len() == 65
    }
}

/// The SEC1 encoding of the point `(x, y)`. The compressed form keeps the
/// x-coordinate and, in the tag, whether the y-coordinate is odd.
pub open spec fn sec1_encoding(x: Seq<u8>, y: Seq<u8>, compress: bool) -> Seq<u8> {
    if compress {
        seq![if y[31] % 2 == 1 { 0x03u8 } else { 0x02u8 }] + x
    } else {
        seq![0x04u8] + x + y
    }
}

/// `elliptic_curve::sec1::EncodedPoint::from_bytes`, for a curve with a
/// 32-byte field, accepts exactly the inputs whose first byte is a valid tag
/// and whose length is the one that the tag calls for. `as_bytes` then
/// gives the input back.
#[verifier::external_body]
fn sec1_from_bytes(input: &[u8]) -> (res: Option<Vec<u8>>)
    ensures
        res is Some <==> sec1_well_formed(input@),
        res matches Some(bytes) ==> bytes@ == input@,
{
    match elliptic_curve::dev::EncodedPoint::from_bytes(input) {
        Ok(point) => Some(point.as_bytes().to_vec()),
        Err(_) => None,
    }
}

/// `elliptic_curve::sec1::EncodedPoint::from_affine_coordinates` writes the
/// tag, then the x-coordinate, then, unless compression is asked for, the
/// y-coordinate. The tag is `0x04` without compression; with it, `0x03` when
/// the last byte of the y-coordinate is odd and `0x02` when it is even.
#[verifier::external_body]
fn sec1_from_affine_coordinates(x: &[u8; 32], y: &[u8; 32], compress: bool) -> (bytes: Vec<u8>)
    ensures
        bytes@ == sec1_encoding(x@, y@, compress),
{
    let x = FieldBytes::from(*x);
    let y = FieldBytes::from(*y);
    elliptic_curve::dev::EncodedPoint::from_affine_coordinates(&x, &y, compress).as_bytes().to_vec()
}

/// A curve point in SEC1 encoding.
#[derive(Debug, PartialEq, Eq)]
pub struct EncodedPoint {
    bytes: Vec<u8>,
}

impl View for EncodedPoint {
    type V = Seq<u8>;

    closed spec fn view(&self) -> Seq<u8> {
        self.bytes@
    }
}

impl EncodedPoint {
    #[verifier::type_invariant]
    spec fn well_formed(self) -> bool {
        sec1_well_formed(self.bytes@)
    }

    /// Reads an encoded point. An unknown tag or a length that does not fit
    /// the tag is refused.
    pub fn from_bytes(input: &[u8]) -> (res: Result<EncodedPoint, Error>)
        ensures
            res is Ok <==> sec1_well_formed(input@),
            res matches Ok(point) ==> point@ == input@,
            res matches Err(e) ==> e == Error::InvalidKey,
    {
        match sec1_from_bytes(input) {
            Some(bytes) => Ok(EncodedPoint { bytes }),
            None => Err(Error::InvalidKey),
        }
    }

    /// Encodes the point `(x, y)`, compressed or not.
    pub fn from_affine_coordinates(x: &[u8; 32], y: &[u8; 32], compress: bool) -> (point:
        EncodedPoint)
        ensures
            point@ == sec1_encoding(x@, y@, compress),
    {
        let bytes: Vec<u8> = sec1_from_affine_coordinates(x, y, compress);
        EncodedPoint { bytes }
    }

    /// The encoding.
    pub fn as_bytes(&self) -> (bytes: &[u8])
        ensures
            bytes@ == self@,
            sec1_well_formed(self@),
    {
        proof {
            use_type_invariant(self);
        }
        self.bytes.as_slice()
    }

    /// Whether this is the encoding of the identity, the point at infinity.
    pub fn is_identity(&self) -> (b: bool)
        ensures
            b <==> self@[0] == 0x00,
            sec1_well_formed(self@),
    {
        proof {
            use_type_invariant(self);
        }
        self.bytes[0] == 0x00
    }

    /// Whether this is a compressed encoding.
    pub fn is_compressed(&self) -> (b: bool)
        ensures
            b <==> (self@[0] == 0x02 || self@[0] == 0x03),
            sec1_well_formed(self@),
    {
        proof {
            use_type_invariant(self);
        }
        self.bytes[0] == 0x02 || self.bytes[0] == 0x03
    }

    /// The x-coordinate, which every encoding but that of the identity holds.
    pub fn x(&self) -> (x: Option<[u8; 32]>)
        ensures
            x is Some <==> self@[0] != 0x00,
            x matches Some(bytes) ==> bytes@ == self@.subrange(1, 33),
    {
        proof {
            use_type_invariant(self);
        }
        if self.bytes[0] == 0x00 {
            None
        } else {
            Some(copy_block(self.bytes.as_slice(), 1))
        }
    }

    /// The y-coordinate, which only an uncompressed encoding holds.
    pub fn y(&self) -> (y: Option<[u8; 32]>)
        ensures
            y is Some <==> self@[0] == 0x04,
            y matches Some(bytes) ==> bytes@ == self@.subrange(33, 65),
    {
        proof {
            use_type_invariant(self);
        }
        if self.bytes[0] == 0x04 {
            Some(copy_block(self.bytes.as_slice(), 33))
        } else {
            None
        }
    }
}

/// Copies the thirty-two bytes of `bytes` from `start` on.
pub(crate) fn copy_block(bytes: &[u8], start: usize) -> (out: [u8; 32])
    requires
        start + 32 <= bytes@.len(),
    ensures
        out@ == bytes@.subrange(start as int, start + 32),
{
    let mut out: [u8; 32] = [0u8; 32];
    let len: usize = bytes.len();
    let mut i: usize = 0;
    while i < 32
        invariant
            i <= 32,
            start + 32 <= len == bytes@.len(),
            forall|j: int| 0 <= j < i ==> out@[j] == bytes@[start + j],
        decreases 32 - i,
    {
        out[i] = bytes[start + i];
        i += 1;
    }
    assert(out@ =~= bytes@.subrange(start as int, start + 32));
    out
}

/// A public key: the affine coordinates of a curve point other than the
/// identity, each thirty-two bytes, most significant byte first.
///
/// Whether the coordinates satisfy the curve equation is for the curve
/// arithmetic to say; this type carries them.
#[derive(Clone, Copy, Debug, PartialEq, Eq)]
pub struct PublicKey {
    pub x: [u8; 32],
    pub y: [u8; 32],
}

impl PublicKey {
    /// A public key with the given coordinates.
    pub fn from_affine_coordinates(x: [u8; 32], y: [u8; 32]) -> (key: PublicKey)
        ensures
            key.x == x,
            key.y == y,
    {
        PublicKey { x, y }
    }

    /// The SEC1 encoding of the key, compressed or not.
    pub fn to_encoded_point(&self, compress: bool) -> (point: EncodedPoint)
        ensures
            point@ == sec1_encoding(self.x@, self.y@, compress),
    {
        EncodedPoint::from_affine_coordinates(&self.x, &self.y, compress)
    }
}

} // verus!
