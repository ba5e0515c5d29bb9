//! What can go wrong with a Request.

use vstd::prelude::*;

verus! {

/// `std::io::Error`, carried through as an opaque value.
#[verifier::external_type_specification]
#[verifier::external_body]
pub struct ExIoError(std::io::Error);

/// `std::io::ErrorKind`, carried through as an opaque value.
#[verifier::external_type_specification]
#[verifier::external_body]
pub struct ExIoErrorKind(std::io::ErrorKind);

/// The kind that `std::io::Error::kind` reports for an error.
pub uninterp spec fn io_error_kind(e: std::io::Error) -> std::io::ErrorKind;

/// Whether a kind is `std::io::ErrorKind::WouldBlock`.
pub uninterp spec fn is_would_block(kind: std::io::ErrorKind) -> bool;

/// Calls `std::io::Error::kind`; the result is named `io_error_kind`, a
/// function of the error alone.
#[verifier::external_body]
pub(crate) fn kind_of(e: &std::io::Error) -> (kind: std::io::ErrorKind)
    ensures
        kind == io_error_kind(*e),
{
    e.kind()
}

/// Tells `std::io::ErrorKind::WouldBlock` apart from every other kind.
#[verifier::external_body]
pub(crate) fn kind_is_would_block(kind: std::io::ErrorKind) -> (b: bool)
    ensures
        b == is_would_block(kind),
{
    matches!(kind, std::io::ErrorKind::WouldBlock)
}

/// All the errors that the socket task reports.
#[derive(Debug, Copy, Clone, PartialEq, Eq)]
pub enum SocketError {
    /// An underlying socket error
    IOError(std::io::ErrorKind),
    /// The given handle was not recognised
    BadHandle,
    /// The pending write failed because the socket dropped
    Dropped,
    /// Function not implemented yet
    NotImplemented,
}

impl From<std::io::Error> for SocketError {
    fn from(e: std::io::Error) -> (r: SocketError) {
        SocketError::IOError(kind_of(&e))
    }
}

impl vstd::std_specs::convert::FromSpecImpl<std::io::Error> for SocketError {
    open spec fn obeys_from_spec() -> bool {
        true
    }

    open spec fn from_spec(e: std::io::Error) -> SocketError {
        SocketError::IOError(io_error_kind(e))
    }
}

} // verus!
