//! The error taxonomy of the library.

use vstd::prelude::*;

verus! {

/// Every failure a library operation can report, with one variant per cause.
#[derive(Clone, Copy, Debug, PartialEq, Eq, Structural)]
pub enum ErrorKind {
    /// Bad credentials, or a claims mismatch during verification.
    Unauthorized,
    /// No token row exists for the given id.
    NotFound,
    /// Client input that cannot be parsed (a non-numeric id, a broken encoding).
    Malformed,
    /// A token that fails cryptographic verification.
    InvalidSignature,
    /// A required configuration value (secret, credential, TTL) is not set or unusable.
    ConfigurationMissing,
    /// A generic persistence-layer failure.
    StorageFailure,
    /// A scheduled deletion's task could not be observed or joined.
    AsyncTaskFailure,
}

impl ErrorKind {
    /// The HTTP status code a transport should answer with for this error.
    pub fn status_code(&self) -> (code: u16)
        ensures
            code == self.spec_status_code(),
    {
        match self {
            ErrorKind::Unauthorized => 401,
            ErrorKind::NotFound => 404,
            ErrorKind::Malformed => 417,
            ErrorKind::InvalidSignature => 401,
            ErrorKind::ConfigurationMissing => 500,
            ErrorKind::StorageFailure => 500,
            ErrorKind::AsyncTaskFailure => 417,
        }
    }

    /// What `status_code` returns for each variant.
    pub open spec fn spec_status_code(&self) -> u16 {
        match self {
            ErrorKind::Unauthorized => 401,
            ErrorKind::NotFound => 404,
            ErrorKind::Malformed => 417,
            ErrorKind::InvalidSignature => 401,
            ErrorKind::ConfigurationMissing => 500,
            ErrorKind::StorageFailure => 500,
            ErrorKind::AsyncTaskFailure => 417,
        }
    }

    /// A human-readable message naming the failure.
    pub fn message(&self) -> String {
        match self {
            ErrorKind::Unauthorized => String::from_str("unauthorized"),
            ErrorKind::NotFound => String::from_str("not found"),
            ErrorKind::Malformed => String::from_str("malformed input"),
            ErrorKind::InvalidSignature => String::from_str("invalid signature"),
            ErrorKind::ConfigurationMissing => String::from_str("missing configuration"),
            ErrorKind::StorageFailure => String::from_str("storage failure"),
            ErrorKind::AsyncTaskFailure => String::from_str("async task failure"),
        }
    }
}

} // verus!
