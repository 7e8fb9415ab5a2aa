//! SHA-256 and HMAC-SHA-256, computed by the `sha2` and `hmac` crates, and
//! the wiping of byte buffers by the `zeroize` crate.
//!
//! Nothing here is proved about the hash functions. Their results are named,
//! so that what is built on them can be stated exactly.

use hmac::{Hmac, Mac, NewMac};
use sha2::{Digest, Sha256};
use vstd::prelude::*;

verus! {

/// The SHA-256 digest of `message`: thirty-two bytes.
pub uninterp spec fn sha256(message: Seq<u8>) -> Seq<u8>;

/// The HMAC-SHA-256 code of `message` under `key`: thirty-two bytes.
pub uninterp spec fn hmac_sha256(key: Seq<u8>, message: Seq<u8>) -> Seq<u8>;

/// `sha2::Sha256::digest` hashes the whole message in one call. The result
/// depends on the message alone.
#[verifier::external_body]
pub(crate) fn sha256_digest(message: &[u8]) -> (out: [u8; 32])
    ensures
        out@ == sha256(message@),
{
    Sha256::digest(message).into()
}

/// `hmac::Hmac::<Sha256>`: `new_varkey` takes a key of any length and never
/// fails, `update` absorbs the message, `finalize` gives the code. The result
/// depends on the key and the message alone.
#[verifier::external_body]
pub(crate) fn hmac_sha256_code(key: &[u8], message: &[u8]) -> (out: [u8; 32])
    ensures
        out@ == hmac_sha256(key@, message@),
{
    let mut mac = Hmac::<Sha256>::new_varkey(key).unwrap();
    mac.update(message);
    mac.finalize().into_bytes().into()
}

/// `zeroize::Zeroize::zeroize` on a byte slice sets every byte to zero, with
/// volatile writes that the compiler does not remove. The length stays.
#[verifier::external_body]
pub(crate) fn wipe_bytes(buffer: &mut Vec<u8>)
    ensures
        final(buffer)@ == Seq::new(old(buffer)@.len(), |i: int| 0u8),
    opens_invariants none
    no_unwind
{
    elliptic_curve::zeroize::Zeroize::zeroize(buffer.as_mut_slice());
}

/// `zeroize::Zeroize::zeroize` on a byte array sets every byte to zero, with
/// volatile writes that the compiler does not remove.
#[verifier::external_body]
pub(crate) fn wipe_block(block: &mut [u8; 32])
    ensures
        final(block)@ == Seq::new(32, |i: int| 0u8),
    opens_invariants none
    no_unwind
{
    elliptic_curve::zeroize::Zeroize::zeroize(block);
}

/// An empty buffer with room for `len + more` bytes, so that filling it up
/// to that length moves nothing: what a move leaves behind is not wiped.
pub(crate) fn buffer_for(len: usize, more: usize) -> (buffer: Vec<u8>)
    ensures
        buffer@ == Seq::<u8>::empty(),
{
    match len.checked_add(more) {
        Some(room) => {
            if room <= usize::MAX / 2 {
                Vec::with_capacity(room)
            } else {
                Vec::new()
            }
        },
        None => Vec::new(),
    }
}

/// Appends `bytes` to `buffer`.
pub(crate) fn append(buffer: &mut Vec<u8>, bytes: &[u8])
    ensures
        final(buffer)@ == old(buffer)@ + bytes@,
{
    let mut i: usize = 0;
    while i < bytes.len()
        invariant
            i <= bytes.len(),
            buffer@ == old(buffer)@ + bytes@.subrange(0, i as int),
        decreases bytes.len() - i,
    {
        buffer.push(bytes[i]);
        i += 1;
        assert(bytes@.subrange(0, i as int) =~= bytes@.subrange(0, i - 1).push(bytes@[i - 1]));
    }
    assert(bytes@.subrange(0, i as int) =~= bytes@);
}

} // verus!
