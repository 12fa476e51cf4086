//! Credential backend and the session-authenticated request state machine.
//!
//! `Backend` answers authentication and permission queries against the
//! credential store. `AuthManager` orchestrates backend and session store
//! into the two request-path operations: `authenticate` (a pure state
//! check) and `resolve` (token → identity or anonymous), plus session
//! issue/revocation on login and logout and the sweeper's bulk deletion.
//! Every operation takes the current time as an argument; the caller owns
//! the clock.

use vstd::prelude::*;
use crate::credential_store::{
    spec_find_by_id, spec_find_by_username, spec_set_password, CredentialStore,
};
use crate::error::DbError;
use crate::password::{password_matches, verify_password_hash};
use crate::session_store::{
    has_token, spec_delete, spec_read, spec_sweep, spec_touch, Session, SessionStore,
};
use crate::user::{Credentials, DbPermission, DbUser, User};

verus! {

/// The sliding inactivity window: a session expires one hour after its last
/// resolved use.
pub const SESSION_TTL_SECS: u64 = 3600;

/// How long the expiry sweeper sleeps between two compaction passes. The
/// process supervisor runs the loop; the interval is the library's policy.
pub const SWEEP_INTERVAL_SECS: u64 = 60;

/// What `authenticate` returns for this user table and credential pair:
/// the unique user under the username, provided the password verifies
/// against that user's stored hash; `UserNotFound` and `PasswordIncorrect`
/// are distinguished.
pub open spec fn spec_authenticate(
    users: Seq<DbUser>,
    username: Seq<char>,
    password: Seq<char>,
) -> Result<User, DbError> {
    match spec_find_by_username(users, username) {
        Some(u) => if password_matches(password, u.password@) {
            Ok(User(u))
        } else {
            Err(DbError::PasswordIncorrect)
        },
        None => Err(DbError::UserNotFound),
    }
}

/// Whether the session record is logically current at `now`: a session
/// stops resolving the instant `expires_at` is reached, whether or not its
/// row was already swept.
pub open spec fn session_current(s: Session, now: u64) -> bool {
    now < s.expires_at
}

/// What `resolve` returns for this state, token and instant: the identity
/// under the token, provided the record exists, has not logically expired,
/// its user still exists, and its fingerprint still equals the user's
/// current password hash. Every other case is anonymous — no error.
pub open spec fn spec_resolve(
    users: Seq<DbUser>,
    sessions: Seq<Session>,
    tok: Seq<char>,
    now: u64,
) -> Option<User> {
    match spec_read(sessions, tok) {
        Some(s) => if !session_current(s, now) {
            None
        } else {
            match spec_find_by_id(users, s.user_id as int) {
                Some(u) => if u.password@ == s.fingerprint@ {
                    Some(User(u))
                } else {
                    None
                },
                None => None,
            }
        },
        None => None,
    }
}

/// The pluggable credential backend: reads user records and the
/// user→group→permission join from the credential store, and verifies
/// passwords against stored hashes.
pub struct Backend {
    pub db: CredentialStore,
}

impl Backend {
    /// Wraps a credential store.
    pub fn new(db: CredentialStore) -> (r: Backend)
        ensures
            r.db == db,
    {
        Backend { db }
    }

    /// The backend's invariant.
    pub open spec fn wf(&self) -> bool {
        self.db.wf()
    }

    /// Verifies a credential pair. Returns the matching user exactly when
    /// the username exists and the password verifies against the stored
    /// hash; fails with `UserNotFound` when no user carries the username,
    /// and with `PasswordIncorrect` when the user exists but verification
    /// fails.
    pub fn authenticate(&self, creds: &Credentials) -> (r: Result<User, DbError>)
        requires
            self.wf(),
        ensures
            r == spec_authenticate(self.db.users@, creds.username@, creds.password@),
    {
        match self.db.find_by_username(&creds.username) {
            Some(u) => {
                if verify_password_hash(&creds.password, &u.password) {
                    Ok(User(u))
                } else {
                    Err(DbError::PasswordIncorrect)
                }
            },
            None => Err(DbError::UserNotFound),
        }
    }

    /// Looks a user up by id. The in-memory store cannot fail, so the
    /// result is always `Ok`; the `Result` shape is kept for callers that
    /// treat backend trouble as a distinguishable case.
    pub fn get_user(&self, user_id: i64) -> (r: Result<Option<User>, DbError>)
        requires
            self.wf(),
        ensures
            r == Result::<Option<User>, DbError>::Ok(
                match spec_find_by_id(self.db.users@, user_id as int) {
                    Some(u) => Some(User(u)),
                    None => None,
                },
            ),
    {
        match self.db.find_by_id(user_id) {
            Some(u) => Ok(Some(User(u))),
            None => Ok(None),
        }
    }

    /// The effective permission set of a user, through all group
    /// memberships, each permission name exactly once; the empty set — not
    /// an error — for a user in no group.
    pub fn get_group_permissions(&self, user: &User) -> (r: Result<Vec<DbPermission>, DbError>)
        ensures
            r is Ok,
            self.db.is_permission_set(user.0.id as int, (r->Ok_0)@),
            (forall|j: int|
                0 <= j < self.db.memberships@.len()
                    ==> (#[trigger] self.db.memberships@[j].user_id) != user.0.id)
                ==> (r->Ok_0)@.len() == 0,
    {
        Ok(self.db.effective_permissions(user.id()))
    }
}

/// Orchestrates backend and session store: issues sessions on login,
/// resolves tokens on every request, revokes on logout, and hosts the
/// sweeper's bulk deletion.
pub struct AuthManager {
    pub backend: Backend,
    pub sessions: SessionStore,
}

impl AuthManager {
    /// A manager over a credential backend, with no outstanding session.
    pub fn new(backend: Backend) -> (r: AuthManager)
        ensures
            r.backend == backend,
            r.sessions.sessions@ == Seq::<Session>::empty(),
    {
        AuthManager { backend, sessions: SessionStore::new() }
    }

    /// Both stores' invariants.
    pub open spec fn wf(&self) -> bool {
        self.backend.wf() && self.sessions.wf()
    }

    /// Verifies a credential pair; a pure state check, no session is
    /// created.
    pub fn authenticate(&self, creds: &Credentials) -> (r: Result<User, DbError>)
        requires
            self.wf(),
        ensures
            r == spec_authenticate(self.backend.db.users@, creds.username@, creds.password@),
    {
        self.backend.authenticate(creds)
    }

    /// Materializes a session for an authenticated identity: a fresh random
    /// token mapping to the user's id, with the user's current password
    /// hash as fingerprint and the full inactivity window ahead of it. The
    /// token is returned for the caller to attach to its response; `None`
    /// only on the vanishingly rare exhaustion of fresh-token draws, with
    /// the state unchanged.
    pub fn begin_session(&mut self, user: &User, now: u64) -> (r: Option<String>)
        requires
            old(self).wf(),
            now + SESSION_TTL_SECS <= u64::MAX,
        ensures
            final(self).wf(),
            final(self).backend == old(self).backend,
            r matches Some(token) ==> {
                &&& !has_token(old(self).sessions.sessions@, token@)
                &&& final(self).sessions.sessions@ == old(self).sessions.sessions@.push(
                    new_session(user.0, token, now, (now + SESSION_TTL_SECS) as u64),
                )
            },
            r is None ==> final(self).sessions == old(self).sessions,
    {
        self.sessions.create(user.0.id, &user.0.password, now, now + SESSION_TTL_SECS)
    }

    /// Resolves a session token to an identity, or to anonymous. A token
    /// resolves exactly when its record exists, has not logically expired,
    /// and its fingerprint still equals the user's current password hash;
    /// on success the expiry window slides forward from `now`. An invalid
    /// or expired record is left in place — deletion happens only through
    /// logout or the sweeper, keeping this path read-mostly.
    pub fn resolve(&mut self, token: &String, now: u64) -> (r: Option<User>)
        requires
            old(self).wf(),
            now + SESSION_TTL_SECS <= u64::MAX,
        ensures
            final(self).wf(),
            final(self).backend == old(self).backend,
            r == spec_resolve(
                old(self).backend.db.users@,
                old(self).sessions.sessions@,
                token@,
                now,
            ),
            r is Some ==> final(self).sessions.sessions@ == spec_touch(
                old(self).sessions.sessions@,
                token@,
                (now + SESSION_TTL_SECS) as u64,
            ),
            r is None ==> final(self).sessions == old(self).sessions,
    {
        let record = match self.sessions.read(token) {
            Some(s) => s,
            None => {
                return None;
            },
        };
        if now >= record.expires_at {
            return None;
        }
        let user = match self.backend.db.find_by_id(record.user_id) {
            Some(u) => u,
            None => {
                return None;
            },
        };
        if user.password == record.fingerprint {
            self.sessions.touch(token, now + SESSION_TTL_SECS);
            Some(User(user))
        } else {
            None
        }
    }

    /// The compound login flow: authenticate, then materialize a session.
    /// On a credential error nothing changes; on success the caller gets
    /// the identity and the session token to set as the response cookie.
    /// `StoreUnavailable` reports the fresh-token exhaustion of
    /// `begin_session`, again with nothing changed.
    pub fn login(&mut self, creds: &Credentials, now: u64) -> (r: Result<(User, String), DbError>)
        requires
            old(self).wf(),
            now + SESSION_TTL_SECS <= u64::MAX,
        ensures
            final(self).wf(),
            final(self).backend == old(self).backend,
            match spec_authenticate(old(self).backend.db.users@, creds.username@, creds.password@) {
                Err(e) => r == Result::<(User, String), DbError>::Err(e)
                    && final(self).sessions == old(self).sessions,
                Ok(u) => match r {
                    Ok((ru, token)) => {
                        &&& ru == u
                        &&& !has_token(old(self).sessions.sessions@, token@)
                        &&& final(self).sessions.sessions@ == old(self).sessions.sessions@.push(
                            new_session(u.0, token, now, (now + SESSION_TTL_SECS) as u64),
                        )
                    },
                    Err(e) => e is StoreUnavailable
                        && final(self).sessions == old(self).sessions,
                },
            },
    {
        let user = match self.backend.authenticate(creds) {
            Ok(u) => u,
            Err(e) => {
                return Err(e);
            },
        };
        match self.begin_session(&user, now) {
            Some(token) => Ok((user, token)),
            None => Err(DbError::StoreUnavailable),
        }
    }

    /// Revokes the session under this token; idempotent, an absent token is
    /// not an error. Only the named session is removed.
    pub fn logout(&mut self, token: &String)
        requires
            old(self).wf(),
        ensures
            final(self).wf(),
            final(self).backend == old(self).backend,
            final(self).sessions.sessions@ == spec_delete(old(self).sessions.sessions@, token@),
            !has_token(final(self).sessions.sessions@, token@),
    {
        self.sessions.delete(token);
    }

    /// The sweeper's compaction pass: physically deletes exactly the
    /// records with `expires_at < now` and reports how many went. A
    /// best-effort pass — logical expiry already made those sessions
    /// unusable.
    pub fn sweep_expired(&mut self, now: u64) -> (count: usize)
        requires
            old(self).wf(),
        ensures
            final(self).wf(),
            final(self).backend == old(self).backend,
            final(self).sessions.sessions@ == spec_sweep(old(self).sessions.sessions@, now),
            count == old(self).sessions.sessions@.len() - final(self).sessions.sessions@.len(),
    {
        self.sessions.delete_expired(now)
    }

    /// The effective permission set of an identity, for route guards.
    pub fn permissions_of(&self, user: &User) -> (r: Vec<DbPermission>)
        ensures
            self.backend.db.is_permission_set(user.0.id as int, r@),
    {
        self.backend.db.effective_permissions(user.id())
    }

    /// The explicit password-change path: hashes the new password with a
    /// fresh salt and swaps the stored hash, leaving every session row in
    /// place — outstanding sessions for the user die through the
    /// fingerprint check at resolution time, not eagerly. Returns whether
    /// a user with this id exists; without one, nothing changes.
    pub fn change_password(&mut self, user_id: i64, new_password: &String) -> (r: bool)
        requires
            old(self).wf(),
            new_password@.len() <= 0x3FFF_FFFF,
        ensures
            final(self).wf(),
            r == crate::credential_store::has_user_id(old(self).backend.db.users@, user_id as int),
            exists|h: String|
                #[trigger] password_matches(new_password@, h@) && final(self).backend.db.users@
                    == spec_set_password(old(self).backend.db.users@, user_id as int, h),
            r ==> password_matches(
                new_password@,
                spec_find_by_id(final(self).backend.db.users@, user_id as int)->Some_0.password@,
            ),
            final(self).backend.db.memberships@ == old(self).backend.db.memberships@,
            final(self).backend.db.grants@ == old(self).backend.db.grants@,
            final(self).sessions == old(self).sessions,
    {
        let new_hash = crate::password::hash_password(new_password);
        let ghost h = new_hash;
        let r = self.backend.db.set_password(user_id, new_hash);
        proof {
            let users = old(self).backend.db.users@;
            let id = user_id as int;
            assert(password_matches(new_password@, h@) && self.backend.db.users@
                == spec_set_password(users, id, h));
            if r {
                let i = choose|i: int| 0 <= i < users.len() && users[i].id == id;
                assert(self.backend.db.users@ == users.update(
                    i,
                    DbUser { password: h, ..users[i] },
                ));
                crate::credential_store::lemma_find_by_id_at(self.backend.db.users@, id, i);
            }
        }
        r
    }
}

/// The record `begin_session` writes for this user, token and instant.
pub open spec fn new_session(u: DbUser, token: String, created_at: u64, expires_at: u64) -> Session {
    Session { token, user_id: u.id, fingerprint: u.password, created_at, expires_at }
}

/// The field of the login form that a failed login should flag.
pub enum LoginFeedback {
    /// Flag the username field: no such user.
    UsernameError,
    /// Flag the password field: wrong password.
    PasswordError,
    /// Neither field: infrastructure trouble, show a generic failure.
    ServerError,
}

/// Chooses form-level feedback for a failed login. Whether the
/// username/password distinction should survive to the UI is a deliberate
/// policy choice: this mapping preserves it, and a presentation layer that
/// prefers to prevent username enumeration collapses both cases into one
/// message.
pub fn login_feedback(e: &DbError) -> (r: LoginFeedback)
    ensures
        r is UsernameError <==> e is UserNotFound,
        r is PasswordError <==> e is PasswordIncorrect,
{
    match e {
        DbError::UserNotFound => LoginFeedback::UsernameError,
        DbError::PasswordIncorrect => LoginFeedback::PasswordError,
        _ => LoginFeedback::ServerError,
    }
}

/// The post-login redirect target: the `next` URL carried by the login
/// form, or the site root.
pub fn redirect_target(next: &Option<String>) -> (r: String)
    ensures
        match next {
            Some(url) => r@ == url@,
            None => r@ == "/"@,
        },
{
    match next {
        Some(url) => url.clone(),
        None => {
            let root: &str = "/";
            root.to_owned()
        },
    }
}

} // verus!
