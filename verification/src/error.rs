//! Error kinds.

use vstd::prelude::*;

verus! {

/// Why an operation was refused.
///
/// The kinds are deliberately coarse: a caller learns which operation failed
/// and nothing about the step inside it.
#[derive(Clone, Copy, Debug, PartialEq, Eq, Structural)]
pub enum Error {
    /// Key bytes that are malformed, zero or out of range.
    InvalidKey,
    /// The signing primitive reported a failure.
    SigningFailed,
    /// The signature does not validate, or is structurally invalid.
    VerificationFailed,
}

} // verus!
