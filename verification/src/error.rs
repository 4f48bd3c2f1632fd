//! The error kinds that every fallible step maps to.

use vstd::prelude::*;

verus! {

/// Why a request was refused. Nothing of the filesystem or of an internal
/// failure travels with it.
#[derive(Debug, Clone, Copy, PartialEq, Eq, Structural)]
pub enum AppError {
    /// The path, or the archive member, is absent.
    NotFound,
    /// Outside the media root, hidden, of a disallowed kind, or its content
    /// does not match its claimed type.
    Forbidden,
    /// Malformed percent-encoding or archive-member path.
    InvalidPath,
    /// Too many recent failed logins from this client.
    RateLimited,
    /// An unexpected failure while reading a directory or an archive.
    InternalError,
}

impl AppError {
    /// The HTTP status code that reports this error.
    pub open spec fn spec_status(self) -> u16 {
        match self {
            AppError::NotFound => 404,
            AppError::Forbidden => 403,
            AppError::InvalidPath => 400,
            AppError::RateLimited => 429,
            AppError::InternalError => 500,
        }
    }

    /// The HTTP status code that reports this error.
    pub fn status(&self) -> (code: u16)
        ensures
            code == self.spec_status(),
    {
        match self {
            AppError::NotFound => 404,
            AppError::Forbidden => 403,
            AppError::InvalidPath => 400,
            AppError::RateLimited => 429,
            AppError::InternalError => 500,
        }
    }

    /// The short message sent with this error.
    pub fn message(&self) -> (text: &'static str)
        ensures
            text@ == match *self {
                AppError::NotFound => "Not found"@,
                AppError::Forbidden => "Forbidden"@,
                AppError::InvalidPath => "Invalid path"@,
                AppError::RateLimited => "Too many failed authentication attempts. Try again later."@,
                AppError::InternalError => "Internal server error"@,
            },
    {
        match self {
            AppError::NotFound => "Not found",
            AppError::Forbidden => "Forbidden",
            AppError::InvalidPath => "Invalid path",
            AppError::RateLimited => "Too many failed authentication attempts. Try again later.",
            AppError::InternalError => "Internal server error",
        }
    }
}

} // verus!
