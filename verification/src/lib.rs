//! Elliptic Curve Digital Signature Algorithm over groups of 256-bit order.
//!
//! The crate holds what is the same for every such curve: the reduction of a
//! digest into a scalar ([`scalar`]), the deterministic nonce of RFC 6979
//! ([`rfc6979`]), signatures and their encoding ([`signature`]), and the keys
//! that sign and verify ([`sign`], [`signer`], [`verify`]).
//!
//! A curve enters in two places. Its order and its hash function are
//! described by an implementation of [`Curve`]; two such descriptions are in
//! [`curve`]. Its point arithmetic is supplied by a backend through the
//! traits in [`hazmat`], and the keys are generic over the backend.
//!
//! Secrets are held in [`SecretScalar`]: a signing key or a nonce is
//! overwritten with zeros when it is wiped or dropped, and a signing key
//! that holds zero signs nothing.
//!
//! The algebra that connects signing and verification is in [`equations`].

pub mod curve;
pub mod dev;
pub mod digest;
pub mod equations;
pub mod error;
pub mod hazmat;
pub mod limbs;
pub mod rfc6979;
pub mod scalar;
pub mod sec1;
pub mod sign;
pub mod signature;
pub mod signer;
pub mod verify;

pub use curve::{Curve, NistP256, Secp256k1};
pub use error::Error;
pub use scalar::{NonZeroScalar, Scalar, SecretScalar};
pub use sign::SigningKey;
pub use signature::Signature;
pub use signer::{SecretKey, Signer};
pub use verify::VerifyKey;
