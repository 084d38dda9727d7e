use vstd::prelude::*;

verus! {

/// Every failure the authentication core can report.
///
/// `InvalidCredentials` covers both a malformed stored hash and a genuine
/// password mismatch, as well as "no such user" on login, so that none of
/// these outcomes can be told apart by a caller.
#[derive(Clone, Copy, Debug, PartialEq, Eq, Structural)]
pub enum AuthError {
    InvalidCredentials,
    NoPendingCode,
    Mismatch,
    StoreError,
    SigningError,
    InternalError,
}

/// The HTTP status an error is surfaced as: every failure is reported to the
/// client as either a generic "unauthorized" (401) or a generic "internal
/// error" (500), never anything finer.
pub open spec fn spec_status_code(e: AuthError) -> u16 {
    match e {
        AuthError::InvalidCredentials => 401,
        AuthError::NoPendingCode => 401,
        AuthError::Mismatch => 500,
        AuthError::StoreError => 500,
        AuthError::SigningError => 401,
        AuthError::InternalError => 500,
    }
}

impl AuthError {
    /// Maps the error to the opaque status the transport layer reports.
    pub fn status_code(&self) -> (r: u16)
        ensures
            r == spec_status_code(*self),
    {
        match self {
            AuthError::InvalidCredentials => 401,
            AuthError::NoPendingCode => 401,
            AuthError::Mismatch => 500,
            AuthError::StoreError => 500,
            AuthError::SigningError => 401,
            AuthError::InternalError => 500,
        }
    }
}

} // verus!
