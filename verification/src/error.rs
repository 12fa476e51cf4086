//! Error taxonomy of the access-control subsystem.

use vstd::prelude::*;

verus! {

/// Errors raised by credential lookup, authentication and session handling.
///
/// `UserNotFound` and `PasswordIncorrect` are distinguished so that the login
/// flow can give field-level feedback; the presentation layer is expected to
/// collapse them into a single generic message where username enumeration is
/// a concern.
#[derive(Debug)]
pub enum DbError {
    /// A generic lookup miss.
    NotFound,
    /// No user record matches the supplied username.
    UserNotFound,
    /// The user exists but the supplied password does not verify against the
    /// stored hash.
    PasswordIncorrect,
    /// The session token is expired or its fingerprint no longer matches the
    /// user's current password hash.
    SessionInvalid,
    /// The backing store could not be reached.
    StoreUnavailable,
    /// Any other infrastructure failure.
    Other,
}

impl DbError {
    /// A human-readable description of the error.
    pub fn message(&self) -> (r: &'static str)
        ensures
            r@ == self.spec_message(),
    {
        match self {
            DbError::NotFound => "Not found",
            DbError::UserNotFound => "User not found",
            DbError::PasswordIncorrect => "Password incorrect",
            DbError::SessionInvalid => "Session invalid",
            DbError::StoreUnavailable => "Store unavailable",
            DbError::Other => "Other error",
        }
    }

    /// The description returned by `message`.
    pub open spec fn spec_message(&self) -> Seq<char> {
        match self {
            DbError::NotFound => "Not found"@,
            DbError::UserNotFound => "User not found"@,
            DbError::PasswordIncorrect => "Password incorrect"@,
            DbError::SessionInvalid => "Session invalid"@,
            DbError::StoreUnavailable => "Store unavailable"@,
            DbError::Other => "Other error"@,
        }
    }
}

} // verus!
