//! The errors that the primitives report.

use vstd::prelude::*;

verus! {

/// What went wrong in a cryptographic operation.
#[derive(Debug, Clone)]
pub enum Error {
    /// A buffer of the wrong size, or an algorithm or curve that the
    /// active backend does not support.
    InvalidArgument(String),
    /// The backend failed to sign, verify, derive or encapsulate.
    CryptographicFailure(String),
    /// The SHA-1 collision detection fired on the hashed input.
    CollisionDetected,
    /// Stages of a writer pipeline finalized out of order, or used after
    /// they were finalized.
    SequencingError,
}

/// The result of an operation that may fail with an [`Error`].
pub type Result<T> = std::result::Result<T, Error>;

} // verus!
