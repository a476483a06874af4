//! The error taxonomy of the note store.

use vstd::prelude::*;

verus! {

/// Everything that can go wrong in the storage engine.
///
/// `NotAnEnvelope`, `MalformedEnvelope` and `Decryption` are kept apart so a
/// caller can tell a foreign or truncated file from a note that fails
/// authentication; the latter conflates a wrong PIN with corrupted data on
/// purpose, since the envelope format cannot distinguish the two.
#[derive(Debug, Clone, Copy, PartialEq, Eq, Structural)]
pub enum AppError {
    /// An input/output failure in a caller-supplied collaborator.
    Io,
    /// The configuration could not be produced or persisted.
    Config,
    /// The encryption primitive itself failed.
    Encryption,
    /// Authenticated decryption failed: wrong PIN or corrupted data.
    Decryption,
    /// The bytes do not begin with the envelope magic marker.
    NotAnEnvelope,
    /// The bytes carry the magic marker but are shorter than the fixed header.
    MalformedEnvelope,
    /// The operator's PIN input is not exactly six ASCII digits.
    Pin,
    /// Password hashing or key derivation failed.
    PinHash,
    /// A terminal failure in the UI collaborator.
    Tui,
    /// A metadata sidecar could not be read or parsed.
    Metadata,
}

impl AppError {
    /// A short human-readable description of the error.
    pub fn message(&self) -> &'static str {
        match self {
            AppError::Io => "I/O error",
            AppError::Config => "configuration error",
            AppError::Encryption => "encryption failed",
            AppError::Decryption => "cannot decrypt: wrong PIN or corrupted data",
            AppError::NotAnEnvelope => "file is not an encrypted note",
            AppError::MalformedEnvelope => "encrypted note is truncated",
            AppError::Pin => "PIN must be 6 digits",
            AppError::PinHash => "PIN hashing failed",
            AppError::Tui => "terminal error",
            AppError::Metadata => "metadata error",
        }
    }
}

} // verus!
