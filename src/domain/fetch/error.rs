//! Errors of the fetch operation.

use vstd::prelude::*;

verus! {

/// Errors that can occur during fetch operations.
#[derive(Debug)]
pub enum FetchError {
    /// Invalid URL
    InvalidUrl(String),
    /// Network error (connection failed, DNS resolution, ...)
    NetworkError(String),
    /// Connect, read or overall timeout
    Timeout(String),
    /// More redirects than allowed
    TooManyRedirects(String),
    /// Non-2xx response
    ServerError(String),
    /// Declared or observed body larger than allowed
    ContentTooLarge(String),
    /// Unsupported protocol
    UnsupportedProtocol(String),
    /// TLS error
    TlsError(String),
    /// The body is not valid text
    EncodingError(String),
    /// Operation not available
    NotImplemented(String),
    /// Other error
    Other(String),
}

/// How a transport failure presented itself.
#[derive(Debug, Clone, Copy, PartialEq, Eq)]
pub enum FailureKind {
    /// A timeout fired
    Timeout,
    /// The redirect limit was reached
    Redirect,
    /// The URL could not be used
    BadUrl,
    /// The TLS handshake failed
    Tls,
    /// Anything else on the wire
    Network,
}

/// The error kind of the taxonomy that a transport failure maps onto.
pub open spec fn failure_matches(kind: FailureKind, e: FetchError) -> bool {
    match kind {
        FailureKind::Timeout => e is Timeout,
        FailureKind::Redirect => e is TooManyRedirects,
        FailureKind::BadUrl => e is InvalidUrl,
        FailureKind::Tls => e is TlsError,
        FailureKind::Network => e is NetworkError,
    }
}

/// Maps a transport failure onto the error taxonomy, keeping its message.
pub fn transport_error(kind: FailureKind, message: String) -> (r: FetchError)
    ensures
        failure_matches(kind, r),
        match r {
            FetchError::Timeout(m) | FetchError::TooManyRedirects(m) | FetchError::InvalidUrl(m)
            | FetchError::TlsError(m) | FetchError::NetworkError(m) => m@ == message@,
            _ => false,
        },
{
    match kind {
        FailureKind::Timeout => FetchError::Timeout(message),
        FailureKind::Redirect => FetchError::TooManyRedirects(message),
        FailureKind::BadUrl => FetchError::InvalidUrl(message),
        FailureKind::Tls => FetchError::TlsError(message),
        FailureKind::Network => FetchError::NetworkError(message),
    }
}

} // verus!
