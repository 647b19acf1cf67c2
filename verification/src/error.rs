//! The error value carried by scripted `Error` outcomes.

use vstd::prelude::*;

verus! {

/// Declares `embedded_io::ErrorKind` for use in signatures and fields.
/// The engine only stores such a value and hands it back verbatim; it never
/// inspects it, so the type stays opaque here.
#[verifier::external_type_specification]
#[verifier::external_body]
pub struct ExErrorKind(embedded_io::ErrorKind);

/// Error type for the crate. This wraps an [`embedded_io::ErrorKind`].
///
/// A `Source` or `Sink` surfaces it verbatim when a scripted `Error` outcome
/// reaches the front of its queue.
#[derive(Debug, Copy, Clone, PartialEq, Eq)]
pub struct MockError(pub embedded_io::ErrorKind);

impl MockError {
    /// The wrapped error category.
    pub fn kind(&self) -> (k: embedded_io::ErrorKind)
        ensures
            k == self.0,
    {
        self.0
    }
}

} // verus!
