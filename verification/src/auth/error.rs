//! Why an exchange is refused.

use vstd::prelude::*;

verus! {

/// What was missing when a caller could not be told apart from a stranger.
#[derive(Clone, Copy, Debug, PartialEq, Eq, Structural)]
pub enum Denial {
    /// No session cookie was presented, or no token that is still valid
    /// matches the one presented. An expired token counts as not found.
    TokenNotFound,
    /// No user is waiting for the one-time password presented.
    OtpNotFound,
}

/// The ways an exchange fails.
#[derive(Clone, Copy, Debug, PartialEq, Eq, Structural)]
pub enum AuthError {
    /// The caller did not prove who they are.
    Unauthorized(Denial),
    /// The store could not carry out a statement.
    StorageFailure,
}

/// HTTP status of an authentication failure.
pub const STATUS_UNAUTHORIZED: u16 = 401;

/// HTTP status of a failure inside the server.
pub const STATUS_INTERNAL_ERROR: u16 = 500;

impl AuthError {
    /// The HTTP status that reports this failure: 401 when the caller is not
    /// authorized, 500 when the store failed.
    pub open spec fn status_spec(self) -> u16 {
        match self {
            AuthError::Unauthorized(_) => STATUS_UNAUTHORIZED,
            AuthError::StorageFailure => STATUS_INTERNAL_ERROR,
        }
    }

    /// The words that describe this failure to the caller.
    pub open spec fn message_spec(self) -> Seq<char> {
        match self {
            AuthError::Unauthorized(Denial::TokenNotFound) => "Token Not Found"@,
            AuthError::Unauthorized(Denial::OtpNotFound) => "OTP Not Found"@,
            AuthError::StorageFailure => "Storage Failure"@,
        }
    }

    /// The HTTP status that reports this failure.
    pub fn status(&self) -> (code: u16)
        ensures
            code == self.status_spec(),
            (code == 401) == (*self is Unauthorized),
    {
        match self {
            AuthError::Unauthorized(_) => STATUS_UNAUTHORIZED,
            AuthError::StorageFailure => STATUS_INTERNAL_ERROR,
        }
    }

    /// The words that describe this failure to the caller.
    pub fn message(&self) -> (text: String)
        ensures
            text@ == self.message_spec(),
    {
        match self {
            AuthError::Unauthorized(Denial::TokenNotFound) => "Token Not Found".to_owned(),
            AuthError::Unauthorized(Denial::OtpNotFound) => "OTP Not Found".to_owned(),
            AuthError::StorageFailure => "Storage Failure".to_owned(),
        }
    }
}

} // verus!
