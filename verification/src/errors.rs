//! The failure taxonomy and its mapping to HTTP statuses and stable codes.

use vstd::prelude::*;

verus! {

/// Every way a request can fail: the login lookup, the bearer header, the
/// token itself, the role comparison, or the seal's signing step.
#[derive(Clone, Copy, PartialEq, Eq, Structural, Debug)]
pub enum AuthError {
    /// The presented credential pair matches no directory entry.
    WrongCredentials,
    /// The bearer header is missing or malformed.
    NoAuth,
    /// The token's structure or signature is wrong.
    TokenInvalid,
    /// The token is well signed but its validity window has lapsed.
    TokenExpired,
    /// The token is valid but its role does not meet the requirement.
    InsufficientRole,
    /// Key generation or signature computation failed; internal, never
    /// caller-caused.
    SigningFailure,
}

/// The HTTP status owed to each failure kind.
pub open spec fn spec_status_of(e: AuthError) -> u16 {
    match e {
        AuthError::WrongCredentials => 403u16,
        AuthError::NoAuth => 401u16,
        AuthError::TokenInvalid => 401u16,
        AuthError::TokenExpired => 401u16,
        AuthError::InsufficientRole => 401u16,
        AuthError::SigningFailure => 500u16,
    }
}

pub fn status_of(e: AuthError) -> (out: u16)
    ensures
        out == spec_status_of(e),
{
    match e {
        AuthError::WrongCredentials => 403,
        AuthError::NoAuth => 401,
        AuthError::TokenInvalid => 401,
        AuthError::TokenExpired => 401,
        AuthError::InsufficientRole => 401,
        AuthError::SigningFailure => 500,
    }
}

/// The stable, machine-readable code of each failure kind, one distinct
/// string per kind.
pub fn code_of(e: AuthError) -> (out: &'static str)
    ensures
        match e {
            AuthError::WrongCredentials => out@ == "wrong credentials"@,
            AuthError::NoAuth => out@ == "no auth header"@,
            AuthError::TokenInvalid => out@ == "invalid auth token"@,
            AuthError::TokenExpired => out@ == "expired auth token"@,
            AuthError::InsufficientRole => out@ == "no permission"@,
            AuthError::SigningFailure => out@ == "signing failure"@,
        },
{
    match e {
        AuthError::WrongCredentials => "wrong credentials",
        AuthError::NoAuth => "no auth header",
        AuthError::TokenInvalid => "invalid auth token",
        AuthError::TokenExpired => "expired auth token",
        AuthError::InsufficientRole => "no permission",
        AuthError::SigningFailure => "signing failure",
    }
}

} // verus!
