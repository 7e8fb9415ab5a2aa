//! Deterministic nonces: the HMAC-based generator of RFC 6979, section 3.2,
//! and its variant with additional data, section 3.6.
//!
//! The curve's hash has 256 bits of output and the group order has 256
//! bits, so one block of the generator's output is one candidate.

use crate::curve::Curve;
use crate::digest::{append, buffer_for, wipe_block, wipe_bytes};
use crate::limbs::{be_bytes, be_value};
use crate::scalar::{reduce, Scalar, SecretScalar};
use core::marker::PhantomData;
use vstd::prelude::*;

verus! {

/// How many candidates [`generate_k`] tries before it gives up. A candidate
/// is refused only when it is zero or not below the order, which for an order
/// of cryptographic size all but never happens: the bound is there so that
/// the search is seen to end, not because it is ever reached.
pub const MAX_ATTEMPTS: u64 = 0xffff_ffff_ffff_ffff;

/// The generator's state: the HMAC key `K` and the chaining value `V`.
pub struct DrbgState {
    pub key: Seq<u8>,
    pub value: Seq<u8>,
}

/// The state before anything was absorbed: `K` is all `0x00`, `V` all `0x01`.
pub open spec fn drbg_start() -> DrbgState {
    DrbgState { key: Seq::new(32, |i: int| 0x00u8), value: Seq::new(32, |i: int| 0x01u8) }
}

/// One update: `K = HMAC(K, V || separator || provided)`, then
/// `V = HMAC(K, V)`.
pub open spec fn drbg_update<C: Curve>(
    state: DrbgState,
    separator: u8,
    provided: Seq<u8>,
) -> DrbgState {
    let key = C::spec_mac(state.key, state.value.push(separator) + provided);
    DrbgState { key, value: C::spec_mac(key, state.value) }
}

/// The state after the secret, the reduced digest and the additional data
/// were absorbed: an update with separator `0x00`, then one with `0x01`.
pub open spec fn drbg_init<C: Curve>(
    secret: Seq<u8>,
    digest: Seq<u8>,
    additional: Seq<u8>,
) -> DrbgState {
    let provided = secret + digest + additional;
    drbg_update::<C>(drbg_update::<C>(drbg_start(), 0x00, provided), 0x01, provided)
}

/// The next block of output: `HMAC(K, V)`.
pub open spec fn drbg_block<C: Curve>(state: DrbgState) -> Seq<u8> {
    C::spec_mac(state.key, state.value)
}

/// The state after a block was taken: `V` becomes the block, then an update
/// with separator `0x00` and nothing provided.
pub open spec fn drbg_next<C: Curve>(state: DrbgState) -> DrbgState {
    drbg_update::<C>(
        DrbgState { key: state.key, value: drbg_block::<C>(state) },
        0x00,
        Seq::empty(),
    )
}

/// The first block, among the next `attempts`, whose value lies in
/// `[1, n - 1]`.
pub open spec fn nonce_search<C: Curve>(state: DrbgState, attempts: nat) -> Option<nat>
    decreases attempts,
{
    if attempts == 0 {
        None
    } else {
        let candidate = be_value(drbg_block::<C>(state));
        if 0 < candidate < C::order() {
            Some(candidate)
        } else {
            nonce_search::<C>(drbg_next::<C>(state), (attempts - 1) as nat)
        }
    }
}

/// The nonce for the secret scalar `secret` and the message digest `digest`,
/// mixed with `additional` data: the secret goes in as thirty-two bytes, the
/// digest reduced modulo the order and then as thirty-two bytes.
pub open spec fn nonce<C: Curve>(secret: nat, digest: Seq<u8>, additional: Seq<u8>) -> Option<nat> {
    nonce_search::<C>(
        drbg_init::<C>(
            be_bytes(secret, 32),
            be_bytes(reduce::<C>(be_value(digest)), 32),
            additional,
        ),
        MAX_ATTEMPTS as nat,
    )
}

/// Every nonce is a valid ephemeral scalar: it lies in `[1, n - 1]`.
pub proof fn lemma_nonce_in_range<C: Curve>(state: DrbgState, attempts: nat)
    ensures
        nonce_search::<C>(state, attempts) matches Some(k) ==> 0 < k < C::order(),
    decreases attempts,
{
    if attempts > 0 {
        lemma_nonce_in_range::<C>(drbg_next::<C>(state), (attempts - 1) as nat);
    }
}

/// The HMAC-based generator, with the hash function of the curve `C`. Its
/// state is overwritten with zeros when it is dropped.
pub struct HmacDrbg<C: Curve> {
    k: [u8; 32],
    v: [u8; 32],
    curve: PhantomData<C>,
}

impl<C: Curve> View for HmacDrbg<C> {
    type V = DrbgState;

    closed spec fn view(&self) -> DrbgState {
        DrbgState { key: self.k@, value: self.v@ }
    }
}

impl<C: Curve> HmacDrbg<C> {
    /// Seeds a generator with the secret, the reduced digest and the
    /// additional data.
    pub fn new(entropy_input: &[u8; 32], nonce: &[u8; 32], additional_data: &[u8]) -> (drbg:
        HmacDrbg<C>)
        ensures
            drbg@ == drbg_init::<C>(entropy_input@, nonce@, additional_data@),
    {
        let mut provided: Vec<u8> = buffer_for(additional_data.len(), 64);
        append(&mut provided, entropy_input.as_slice());
        append(&mut provided, nonce.as_slice());
        append(&mut provided, additional_data);
        let mut drbg = HmacDrbg { k: [0x00u8; 32], v: [0x01u8; 32], curve: PhantomData };
        assert(drbg@.key =~= drbg_start().key);
        assert(drbg@.value =~= drbg_start().value);
        drbg.update(0x00, provided.as_slice());
        drbg.update(0x01, provided.as_slice());
        wipe_bytes(&mut provided);
        drbg
    }

    /// `K = HMAC(K, V || separator || provided)`, then `V = HMAC(K, V)`.
    fn update(&mut self, separator: u8, provided: &[u8])
        ensures
            final(self)@ == drbg_update::<C>(old(self)@, separator, provided@),
    {
        let mut data: Vec<u8> = buffer_for(provided.len(), 33);
        append(&mut data, self.v.as_slice());
        data.push(separator);
        append(&mut data, provided);
        assert(data@ =~= self.v@.push(separator) + provided@);
        self.k = C::mac(self.k.as_slice(), data.as_slice());
        self.v = C::mac(self.k.as_slice(), self.v.as_slice());
        wipe_bytes(&mut data);
    }

    /// Writes the next block of output to `out` and moves the state on.
    pub fn generate_into(&mut self, out: &mut [u8; 32])
        ensures
            final(out)@ == drbg_block::<C>(old(self)@),
            final(self)@ == drbg_next::<C>(old(self)@),
    {
        self.v = C::mac(self.k.as_slice(), self.v.as_slice());
        *out = self.v;
        let no_data: Vec<u8> = Vec::new();
        assert(no_data@ =~= Seq::<u8>::empty());
        self.update(0x00, no_data.as_slice());
    }

    /// Overwrites the key and the chaining value with zeros.
    pub fn zeroize(&mut self)
        ensures
            final(self)@.key == Seq::new(32, |i: int| 0u8),
            final(self)@.value == Seq::new(32, |i: int| 0u8),
        opens_invariants none
        no_unwind
    {
        wipe_block(&mut self.k);
        wipe_block(&mut self.v);
    }
}

impl<C: Curve> Drop for HmacDrbg<C> {
    fn drop(&mut self)
        ensures
            final(self)@.key == Seq::new(32, |i: int| 0u8),
            final(self)@.value == Seq::new(32, |i: int| 0u8),
        opens_invariants none
        no_unwind
    {
        self.zeroize();
    }
}

/// Derives the ephemeral scalar for one signature from the secret scalar and
/// the message digest. With no additional data the result depends on these
/// two alone; additional data is mixed in, it never replaces them.
///
/// Candidates are drawn from the generator until one lies in `[1, n - 1]`.
/// `None` is returned only when [`MAX_ATTEMPTS`] candidates in a row were
/// refused.
pub fn generate_k<C: Curve>(
    secret_scalar: &Scalar<C>,
    digest: &[u8; 32],
    additional_data: &[u8],
) -> (k: Option<SecretScalar<C>>)
    ensures
        k is Some <==> nonce::<C>(secret_scalar@, digest@, additional_data@) is Some,
        k matches Some(s) ==> nonce::<C>(secret_scalar@, digest@, additional_data@) == Some(s@)
            && 0 < s@ < C::order(),
{
    let mut x: [u8; 32] = secret_scalar.to_bytes();
    let h1: [u8; 32] = Scalar::<C>::from_digest(digest).to_bytes();
    let mut drbg: HmacDrbg<C> = HmacDrbg::new(&x, &h1, additional_data);
    wipe_block(&mut x);

    let ghost goal = nonce::<C>(secret_scalar@, digest@, additional_data@);
    let mut found: Option<SecretScalar<C>> = None;
    let mut attempts: u64 = 0;
    while attempts < MAX_ATTEMPTS && found.is_none()
        invariant
            attempts <= MAX_ATTEMPTS,
            found is None ==> goal == nonce_search::<C>(drbg@, (MAX_ATTEMPTS - attempts) as nat),
            found matches Some(s) ==> goal == Some(s@) && 0 < s@ < C::order(),
        decreases MAX_ATTEMPTS - attempts,
    {
        let mut candidate: [u8; 32] = [0u8; 32];
        drbg.generate_into(&mut candidate);
        found = SecretScalar::from_repr(&candidate);
        wipe_block(&mut candidate);
        attempts += 1;
    }
    found
}

} // verus!
