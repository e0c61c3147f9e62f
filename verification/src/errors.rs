//! Error values crossing the library's component boundaries.
//!
//! Lower-level failures are wrapped with contextual information (the path,
//! the operation) as they cross a boundary rather than discarded; rendering
//! them for a user is a caller concern.

use vstd::prelude::*;

verus! {

/// Marker for types that may carry path context in an [`IoError`].
pub trait AllowedIO {

}

impl AllowedIO for String {

}

/// A filesystem I/O failure with path context.
#[derive(Debug)]
pub struct IoError<T: AllowedIO> {
    /// The path where the I/O error occurred
    pub path: T,
    /// A descriptive error message
    pub message: String,
}

/// Error encountered during application initialization or setup.
#[derive(Debug)]
pub struct InitError {
    /// Details about the initialization failure
    pub message: String,
}

/// Error encountered during file hashing operations.
#[derive(Debug)]
pub struct HashError {
    /// The specific hashing error message
    pub message: HashErrorMessage,
}

/// Specific failure reasons for hashing operations.
#[derive(Debug)]
pub enum HashErrorMessage {
    /// The computation of the hash failed
    ComputationFailed(String),
    /// The input or output format was invalid
    InvalidFormat(String),
}

/// Error related to database operations, serialization, or deserialization.
#[derive(Debug)]
pub struct DatabaseError {
    /// Contextual error message
    pub message: String,
}

/// Error related to general file handling or validation.
#[derive(Debug)]
pub struct FileError {
    /// Descriptive error message
    pub message: String,
}

/// Fatal outcomes of a verification attempt, as distinct from the reported
/// per-file verdicts.
#[derive(Debug)]
pub enum VerificationError {
    /// The file's current hash does not match the stored hash
    HashMissMatched {
        /// Path to the inconsistent file
        path: String,
    },
    /// The file exists but is not tracked in the database
    FileUntracked(String),
    /// An I/O failure occurred during verification
    IoFailure,
    /// A hashing failure occurred during verification
    HashFailure,
}

} // verus!
