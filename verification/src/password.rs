//! Password verification and hashing.
//!
//! Verification compares a plaintext credential against a stored salted,
//! memory-hard hash (Argon2 in the PHC string format) and never runs the
//! comparison itself in this crate: it is delegated to `password_auth`.
//! What that comparison returns is a pure function of the plaintext and the
//! hash string alone, which `password_matches` names; contracts elsewhere in
//! the crate speak of that name and never of concrete hash values.

use vstd::prelude::*;

verus! {

/// Whether `verify_password` accepts `password` against the stored hash
/// string `hash`. The outcome depends on the two arguments alone: the salt
/// is embedded in `hash`, and a malformed `hash` is simply never matched by
/// any password.
pub uninterp spec fn password_matches(password: Seq<char>, hash: Seq<char>) -> bool;

/// Relies on `password_auth::verify_password`: returns `Ok(())` exactly when
/// `password` verifies against the PHC-formatted `hash`; a hash that does not
/// parse yields an error, i.e. verification failure, never a panic.
#[verifier::external_body]
pub fn verify_password_hash(password: &String, hash: &String) -> (r: bool)
    ensures
        r == password_matches(password@, hash@),
{
    password_auth::verify_password(password.as_str(), hash.as_str()).is_ok()
}

/// Relies on `password_auth::generate_hash`: hashes the password with a
/// freshly drawn salt into a PHC string that `verify_password` accepts for
/// the same password. The salt is random, so no more is promised of the
/// returned string than that it matches `password`.
///
/// Argon2 rejects passwords longer than `0xFFFF_FFFF` bytes, and
/// `generate_hash` unwraps that error; since a `char` encodes to at most
/// four UTF-8 bytes, the `requires` keeps the byte length under the limit,
/// and hashing with the crate's own salt and default parameters then does
/// not fail.
#[verifier::external_body]
pub fn hash_password(password: &String) -> (r: String)
    requires
        password@.len() <= 0x3FFF_FFFF,
    ensures
        password_matches(password@, r@),
{
    password_auth::generate_hash(password.as_str())
}

} // verus!
