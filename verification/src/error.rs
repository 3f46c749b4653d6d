//! The error taxonomy of the service and its mapping to HTTP.

use vstd::prelude::*;

verus! {

/// Every failure that the service reports to a client.
#[derive(Clone, Copy, Debug, PartialEq, Eq, Structural)]
pub enum AuthError {
    /// Unknown user or wrong password; the two are not told apart.
    InvalidCredentials,
    /// The token is missing, forged or expired, or its session is not valid.
    Unauthorized,
    /// The session is valid but the caller may not do this.
    Forbidden,
    /// The session behind a token is revoked or expired.
    SessionInvalid,
    /// No such user or session.
    NotFound,
    /// The token or the request cannot be decoded.
    Malformed,
    /// The request collides with what is stored, such as a taken username.
    Conflict,
    /// The store or the codec failed.
    Internal,
}

impl AuthError {
    /// The HTTP status that stands for this error.
    pub open spec fn status(self) -> u16 {
        match self {
            AuthError::InvalidCredentials => 401,
            AuthError::Unauthorized => 401,
            AuthError::Forbidden => 403,
            AuthError::SessionInvalid => 401,
            AuthError::NotFound => 404,
            AuthError::Malformed => 400,
            AuthError::Conflict => 409,
            AuthError::Internal => 500,
        }
    }

    /// The machine-readable code that stands for this error.
    pub open spec fn code_text(self) -> Seq<char> {
        match self {
            AuthError::InvalidCredentials => "invalid_credentials"@,
            AuthError::Unauthorized => "unauthorized"@,
            AuthError::Forbidden => "forbidden"@,
            AuthError::SessionInvalid => "session_invalid"@,
            AuthError::NotFound => "not_found"@,
            AuthError::Malformed => "malformed"@,
            AuthError::Conflict => "conflict"@,
            AuthError::Internal => "internal"@,
        }
    }

    /// The HTTP status sent with this error.
    pub fn status_code(&self) -> (status: u16)
        ensures
            status == self.status(),
            400 <= status < 600,
    {
        match self {
            AuthError::InvalidCredentials => 401,
            AuthError::Unauthorized => 401,
            AuthError::Forbidden => 403,
            AuthError::SessionInvalid => 401,
            AuthError::NotFound => 404,
            AuthError::Malformed => 400,
            AuthError::Conflict => 409,
            AuthError::Internal => 500,
        }
    }

    /// The code sent with this error. It names the kind of failure and holds
    /// nothing of the store's or the codec's own message.
    pub fn code(&self) -> (name: &'static str)
        ensures
            name@ == self.code_text(),
    {
        match self {
            AuthError::InvalidCredentials => "invalid_credentials",
            AuthError::Unauthorized => "unauthorized",
            AuthError::Forbidden => "forbidden",
            AuthError::SessionInvalid => "session_invalid",
            AuthError::NotFound => "not_found",
            AuthError::Malformed => "malformed",
            AuthError::Conflict => "conflict",
            AuthError::Internal => "internal",
        }
    }
}

} // verus!
