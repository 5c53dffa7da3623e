//! What can go wrong before a request is sent and while a reply is read.

use vstd::prelude::*;

verus! {

/// The reason for which an operation gives no result.
#[derive(Clone, Copy, Debug, PartialEq, Eq, Structural)]
pub enum StorageError {
    /// The address of the request is no URI.
    InvalidUrl,
    /// A header name is no HTTP token, or is too long to be sent.
    InvalidHeaderName,
    /// A header value holds a character that no header value may hold.
    InvalidHeaderValue,
    /// The value to store could not be written as JSON.
    Encode,
    /// The body of the reply is no JSON text of the type that was asked for.
    Decode,
}

/// The broad kind of a [`StorageError`].
#[derive(Clone, Copy, Debug, PartialEq, Eq, Structural)]
pub enum ErrorKind {
    /// The caller's configuration cannot be sent: a URL, a header name or a
    /// header value is not well formed.
    Config,
    /// The value to store could not be put into its wire format.
    Encode,
    /// The reply could not be read as what was expected.
    Decode,
}

impl StorageError {
    /// The kind of this error.
    pub open spec fn spec_kind(self) -> ErrorKind {
        match self {
            StorageError::InvalidUrl => ErrorKind::Config,
            StorageError::InvalidHeaderName => ErrorKind::Config,
            StorageError::InvalidHeaderValue => ErrorKind::Config,
            StorageError::Encode => ErrorKind::Encode,
            StorageError::Decode => ErrorKind::Decode,
        }
    }

    /// The kind of this error.
    #[verifier::when_used_as_spec(spec_kind)]
    pub fn kind(self) -> (kind: ErrorKind)
        ensures
            kind == self.spec_kind(),
    {
        match self {
            StorageError::InvalidUrl => ErrorKind::Config,
            StorageError::InvalidHeaderName => ErrorKind::Config,
            StorageError::InvalidHeaderValue => ErrorKind::Config,
            StorageError::Encode => ErrorKind::Encode,
            StorageError::Decode => ErrorKind::Decode,
        }
    }

    /// A short description of this error.
    pub fn message(self) -> (text: &'static str)
        ensures
            text@ == match self {
                StorageError::InvalidUrl => "invalid URL"@,
                StorageError::InvalidHeaderName => "invalid HTTP header name"@,
                StorageError::InvalidHeaderValue => "invalid HTTP header value"@,
                StorageError::Encode => "value cannot be written as JSON"@,
                StorageError::Decode => "body is not the JSON that was expected"@,
            },
    {
        match self {
            StorageError::InvalidUrl => "invalid URL",
            StorageError::InvalidHeaderName => "invalid HTTP header name",
            StorageError::InvalidHeaderValue => "invalid HTTP header value",
            StorageError::Encode => "value cannot be written as JSON",
            StorageError::Decode => "body is not the JSON that was expected",
        }
    }
}

} // verus!
