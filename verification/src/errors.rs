//! The error taxonomy of the lock protocol.
//!
//! Every failure of the codec, the chain builder, the solve engine or the
//! unlock engine is one of these variants, so callers can tell a structural
//! problem (missing object, wrong kind, wrong state) from a failed
//! verification, which deserves a retry rather than an abort.

use vstd::prelude::*;

verus! {

/// Why a protocol operation could not be completed.
#[derive(Clone, Copy, Debug, PartialEq, Eq, Structural)]
pub enum DeemakError {
    /// A lock-state string is not exactly two characters of `0`/`1`.
    FormatError,
    /// The object does not resolve under the world root.
    PathInvalid,
    /// The object, or a property it is required to carry, is missing.
    NotFound,
    /// The operation requires a level but found a chest, or vice versa.
    WrongKind,
    /// The object is already in the requested lock state, or a level that
    /// must be unlocked is locked.
    WrongState,
    /// Solve was attempted on a level that is not the source of any chain.
    NoChallenge,
    /// A salt or other cryptographic encoding was malformed.
    CryptoFormatError,
    /// The submitted token did not match the stored verifier.
    VerificationFailed,
    /// A store write failed.
    PersistenceError,
    /// No user is authenticated for an operation that requires one.
    Unauthenticated,
}

impl DeemakError {
    /// A short human-readable description of the error.
    pub fn message(&self) -> (r: &'static str)
        ensures
            r@ == self.message_spec(),
    {
        match self {
            DeemakError::FormatError => "Lock string should be exactly 2 characters of 0/1",
            DeemakError::PathInvalid => "Invalid path given",
            DeemakError::NotFound => "Object or required property not found",
            DeemakError::WrongKind => "Operation is not allowed for this kind of object",
            DeemakError::WrongState => "Object is not in the required lock state",
            DeemakError::NoChallenge => "This level has no challenge to solve",
            DeemakError::CryptoFormatError => "Malformed salt, key or ciphertext encoding",
            DeemakError::VerificationFailed => "Invalid flag. Try again.",
            DeemakError::PersistenceError => "Failed to write to the object store",
            DeemakError::Unauthenticated => "User not authenticated. Please log in.",
        }
    }

    /// The description each variant maps to.
    pub open spec fn message_spec(&self) -> Seq<char> {
        match self {
            DeemakError::FormatError => "Lock string should be exactly 2 characters of 0/1"@,
            DeemakError::PathInvalid => "Invalid path given"@,
            DeemakError::NotFound => "Object or required property not found"@,
            DeemakError::WrongKind => "Operation is not allowed for this kind of object"@,
            DeemakError::WrongState => "Object is not in the required lock state"@,
            DeemakError::NoChallenge => "This level has no challenge to solve"@,
            DeemakError::CryptoFormatError => "Malformed salt, key or ciphertext encoding"@,
            DeemakError::VerificationFailed => "Invalid flag. Try again."@,
            DeemakError::PersistenceError => "Failed to write to the object store"@,
            DeemakError::Unauthenticated => "User not authenticated. Please log in."@,
        }
    }
}

} // verus!
