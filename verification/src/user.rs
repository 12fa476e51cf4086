//! User records, permissions and request-scoped credentials.

use vstd::prelude::*;

verus! {

/// A stored user record: identity plus the salted password hash.
///
/// `password` holds the PHC-formatted hash, never the plaintext. The record
/// is mutated only through the explicit password-change path, which in turn
/// invalidates every outstanding session for the user (the session
/// fingerprint check — see the session store).
pub struct DbUser {
    pub id: i64,
    pub username: String,
    pub password: String,
}

impl DbUser {
    /// An explicit deep copy; every field of the copy equals the original.
    pub fn duplicate(&self) -> (r: DbUser)
        ensures
            r == *self,
    {
        DbUser { id: self.id, username: self.username.clone(), password: self.password.clone() }
    }
}

/// A named permission; a value type with set semantics (equality by name).
pub struct DbPermission {
    pub name: String,
}

impl DbPermission {
    /// Wraps a permission name.
    pub fn new(name: String) -> (r: DbPermission)
        ensures
            r.name == name,
    {
        DbPermission { name }
    }

    /// An explicit deep copy.
    pub fn duplicate(&self) -> (r: DbPermission)
        ensures
            r == *self,
    {
        DbPermission { name: self.name.clone() }
    }
}

/// An authenticated identity: a user record as seen by the request path.
pub struct User(pub DbUser);

impl User {
    /// The user's numeric identity.
    pub fn id(&self) -> (r: i64)
        ensures
            r == self.0.id,
    {
        self.0.id
    }

    /// The hash snapshot a session stores at creation time. A session stays
    /// valid only while this still equals the user's current password hash,
    /// so changing the password invalidates every outstanding session.
    pub fn session_auth_hash(&self) -> (r: &String)
        ensures
            r@ == self.0.password@,
    {
        &self.0.password
    }

    /// An explicit deep copy.
    pub fn duplicate(&self) -> (r: User)
        ensures
            r == *self,
    {
        User(self.0.duplicate())
    }
}

/// Request-scoped login credentials, as read from the login form; never
/// persisted. `next` is the optional URL to redirect to after login.
pub struct Credentials {
    pub username: String,
    pub password: String,
    pub next: Option<String>,
}

/// The optional post-login redirect target, as read from the query string.
pub struct NextUrl {
    pub next: Option<String>,
}

} // verus!
