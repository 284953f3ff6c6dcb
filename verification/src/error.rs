//! The error taxonomy of the library.
//!
//! Every fallible step of message construction, decoding and routing reports
//! one of the unit error values below, wrapped in [`Error`]. Construction is
//! infallible; each unit error converts into [`Error`] through `From`.

use vstd::prelude::*;

verus! {

/// A method token outside the recognized set.
#[derive(Debug, Clone, Copy, PartialEq, Eq, Structural)]
pub struct InvalidMethod;

/// A request line whose URI token is missing.
#[derive(Debug, Clone, Copy, PartialEq, Eq, Structural)]
pub struct InvalidUri;

/// A version token outside the recognized set.
#[derive(Debug, Clone, Copy, PartialEq, Eq, Structural)]
pub struct InvalidVersion;

/// A status code of zero, or one outside the fixed reason-phrase table where
/// the table is required.
#[derive(Debug, Clone, Copy, PartialEq, Eq, Structural)]
pub struct InvalidStatusCode;

/// A header name outside the recognized set, an unreadable header line, or a
/// Content-Length value that is not a decimal number.
#[derive(Debug, Clone, Copy, PartialEq, Eq, Structural)]
pub struct InvalidHeaderName;

/// A body shorter than its declared Content-Length.
#[derive(Debug, Clone, Copy, PartialEq, Eq, Structural)]
pub struct InvalidBody;

/// A listening address that could not be bound.
#[derive(Debug, Clone, Copy, PartialEq, Eq, Structural)]
pub struct FailedConnection;

/// A server built without a fallback handler.
#[derive(Debug, Clone, Copy, PartialEq, Eq, Structural)]
pub struct NoErrorHandler;

/// A request URI matched by more than one registered route.
#[derive(Debug, Clone, Copy, PartialEq, Eq, Structural)]
pub struct AmbiguousRoute;

/// The kind of a library error, one variant per unit error.
#[derive(Debug, Clone, Copy, PartialEq, Eq, Structural)]
pub enum ErrorKind {
    Method(InvalidMethod),
    Uri(InvalidUri),
    Version(InvalidVersion),
    StatusCode(InvalidStatusCode),
    Header(InvalidHeaderName),
    Body(InvalidBody),
    Connection(FailedConnection),
    ErrorHandler(NoErrorHandler),
    Routing(AmbiguousRoute),
}

/// The error type that every fallible operation of the library returns.
#[derive(Debug, Clone, Copy, PartialEq, Eq, Structural)]
pub struct Error {
    inner: ErrorKind,
}

impl Error {
    /// The kind a contract speaks of.
    pub closed spec fn kind(&self) -> ErrorKind {
        self.inner
    }

    /// Returns the kind of the error.
    pub fn kind_of(&self) -> (k: ErrorKind)
        ensures
            k == self.kind(),
    {
        self.inner
    }

    /// Wraps a kind as an error.
    pub fn of_kind(kind: ErrorKind) -> (e: Error)
        ensures
            e.kind() == kind,
    {
        Error { inner: kind }
    }
}

impl From<InvalidMethod> for Error {
    fn from(err: InvalidMethod) -> Error {
        Error { inner: ErrorKind::Method(err) }
    }
}

impl vstd::std_specs::convert::FromSpecImpl<InvalidMethod> for Error {
    open spec fn obeys_from_spec() -> bool {
        true
    }

    closed spec fn from_spec(err: InvalidMethod) -> Error {
        Error { inner: ErrorKind::Method(err) }
    }
}

impl From<InvalidUri> for Error {
    fn from(err: InvalidUri) -> Error {
        Error { inner: ErrorKind::Uri(err) }
    }
}

impl vstd::std_specs::convert::FromSpecImpl<InvalidUri> for Error {
    open spec fn obeys_from_spec() -> bool {
        true
    }

    closed spec fn from_spec(err: InvalidUri) -> Error {
        Error { inner: ErrorKind::Uri(err) }
    }
}

impl From<InvalidVersion> for Error {
    fn from(err: InvalidVersion) -> Error {
        Error { inner: ErrorKind::Version(err) }
    }
}

impl vstd::std_specs::convert::FromSpecImpl<InvalidVersion> for Error {
    open spec fn obeys_from_spec() -> bool {
        true
    }

    closed spec fn from_spec(err: InvalidVersion) -> Error {
        Error { inner: ErrorKind::Version(err) }
    }
}

impl From<InvalidStatusCode> for Error {
    fn from(err: InvalidStatusCode) -> Error {
        Error { inner: ErrorKind::StatusCode(err) }
    }
}

impl vstd::std_specs::convert::FromSpecImpl<InvalidStatusCode> for Error {
    open spec fn obeys_from_spec() -> bool {
        true
    }

    closed spec fn from_spec(err: InvalidStatusCode) -> Error {
        Error { inner: ErrorKind::StatusCode(err) }
    }
}

impl From<InvalidHeaderName> for Error {
    fn from(err: InvalidHeaderName) -> Error {
        Error { inner: ErrorKind::Header(err) }
    }
}

impl vstd::std_specs::convert::FromSpecImpl<InvalidHeaderName> for Error {
    open spec fn obeys_from_spec() -> bool {
        true
    }

    closed spec fn from_spec(err: InvalidHeaderName) -> Error {
        Error { inner: ErrorKind::Header(err) }
    }
}

impl From<InvalidBody> for Error {
    fn from(err: InvalidBody) -> Error {
        Error { inner: ErrorKind::Body(err) }
    }
}

impl vstd::std_specs::convert::FromSpecImpl<InvalidBody> for Error {
    open spec fn obeys_from_spec() -> bool {
        true
    }

    closed spec fn from_spec(err: InvalidBody) -> Error {
        Error { inner: ErrorKind::Body(err) }
    }
}

impl From<FailedConnection> for Error {
    fn from(err: FailedConnection) -> Error {
        Error { inner: ErrorKind::Connection(err) }
    }
}

impl vstd::std_specs::convert::FromSpecImpl<FailedConnection> for Error {
    open spec fn obeys_from_spec() -> bool {
        true
    }

    closed spec fn from_spec(err: FailedConnection) -> Error {
        Error { inner: ErrorKind::Connection(err) }
    }
}

impl From<NoErrorHandler> for Error {
    fn from(err: NoErrorHandler) -> Error {
        Error { inner: ErrorKind::ErrorHandler(err) }
    }
}

impl vstd::std_specs::convert::FromSpecImpl<NoErrorHandler> for Error {
    open spec fn obeys_from_spec() -> bool {
        true
    }

    closed spec fn from_spec(err: NoErrorHandler) -> Error {
        Error { inner: ErrorKind::ErrorHandler(err) }
    }
}

impl From<AmbiguousRoute> for Error {
    fn from(err: AmbiguousRoute) -> Error {
        Error { inner: ErrorKind::Routing(err) }
    }
}

impl vstd::std_specs::convert::FromSpecImpl<AmbiguousRoute> for Error {
    open spec fn obeys_from_spec() -> bool {
        true
    }

    closed spec fn from_spec(err: AmbiguousRoute) -> Error {
        Error { inner: ErrorKind::Routing(err) }
    }
}

} // verus!
