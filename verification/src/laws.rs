//! The laws of the subsystem, stated over the spec-level model that the
//! executable contracts speak of, and proved once and for all.

use vstd::prelude::*;
use crate::auth::{new_session, spec_authenticate, spec_resolve};
use crate::credential_store::{
    has_user_id, has_user_named, lemma_find_by_id_at, lemma_find_by_username_at,
    spec_find_by_id, spec_set_password, unique_ids, unique_usernames, CredentialStore,
};
use crate::error::DbError;
use crate::password::password_matches;
use crate::session_store::{
    has_token, keep_token, lemma_filter_member_token, lemma_filter_unique_tokens,
    lemma_spec_read_at, live_at, spec_delete, spec_read, spec_sweep, spec_touch, touched,
    unique_tokens, Session,
};
use crate::user::{DbUser, User};

verus! {

/// Authenticating a stored user with a password that verifies against the
/// stored hash yields exactly that user; with one that does not, it fails
/// with `PasswordIncorrect` — for every user table with unique usernames.
pub proof fn lemma_authenticate_known_user(users: Seq<DbUser>, i: int, password: Seq<char>)
    requires
        unique_usernames(users),
        0 <= i < users.len(),
    ensures
        password_matches(password, users[i].password@) ==> spec_authenticate(
            users,
            users[i].username@,
            password,
        ) == Result::<User, DbError>::Ok(User(users[i])),
        !password_matches(password, users[i].password@) ==> spec_authenticate(
            users,
            users[i].username@,
            password,
        ) == Result::<User, DbError>::Err(DbError::PasswordIncorrect),
{
    lemma_find_by_username_at(users, users[i].username@, i);
}

/// Authenticating an unknown username fails with `UserNotFound`, whatever
/// the password — never with `PasswordIncorrect`.
pub proof fn lemma_authenticate_unknown_user(
    users: Seq<DbUser>,
    name: Seq<char>,
    password: Seq<char>,
)
    requires
        forall|i: int| 0 <= i < users.len() ==> (#[trigger] users[i]).username@ != name,
    ensures
        spec_authenticate(users, name, password) == Result::<User, DbError>::Err(
            DbError::UserNotFound,
        ),
{
    assert(!has_user_named(users, name));
}

/// A session just created for a stored user resolves, immediately and for
/// as long as neither clock nor stores have moved, to that user's identity;
/// the user lookup under the session's id finds that same record (the
/// creating request reads its own write), and the credential store being
/// untouched, the identity's permission set is the store's current one.
pub proof fn lemma_new_session_resolves(
    users: Seq<DbUser>,
    sessions: Seq<Session>,
    iu: int,
    token: String,
    created_at: u64,
    expires_at: u64,
    now: u64,
)
    requires
        unique_ids(users),
        unique_tokens(sessions),
        0 <= iu < users.len(),
        !has_token(sessions, token@),
        now < expires_at,
    ensures
        spec_resolve(
            users,
            sessions.push(new_session(users[iu], token, created_at, expires_at)),
            token@,
            now,
        ) == Some(User(users[iu])),
        spec_find_by_id(users, users[iu].id as int) == Some(users[iu]),
{
    let record = new_session(users[iu], token, created_at, expires_at);
    let s2 = sessions.push(record);
    assert forall|a: int, b: int| 0 <= a < b < s2.len() implies s2[a].token@ != s2[b].token@ by {
        if b < sessions.len() {
            assert(sessions[a].token@ != sessions[b].token@);
        } else {
            assert(s2[a] == sessions[a]);
            assert(s2[b].token@ == token@);
        }
    }
    lemma_spec_read_at(s2, token@, sessions.len() as int);
    lemma_find_by_id_at(users, users[iu].id as int, iu);
}

/// Changing a user's password invalidates every outstanding session of that
/// user whose fingerprint no longer matches: the row is still physically
/// present, yet resolution returns anonymous — at any instant, without any
/// explicit revocation pass.
pub proof fn lemma_password_change_invalidates(
    users: Seq<DbUser>,
    sessions: Seq<Session>,
    it: int,
    new_hash: String,
    now: u64,
)
    requires
        unique_ids(users),
        unique_tokens(sessions),
        0 <= it < sessions.len(),
        has_user_id(users, sessions[it].user_id as int),
        new_hash@ != sessions[it].fingerprint@,
    ensures
        spec_read(sessions, sessions[it].token@) == Some(sessions[it]),
        spec_resolve(
            spec_set_password(users, sessions[it].user_id as int, new_hash),
            sessions,
            sessions[it].token@,
            now,
        ) == None::<User>,
{
    lemma_spec_read_at(sessions, sessions[it].token@, it);
    let id = sessions[it].user_id as int;
    let users2 = spec_set_password(users, id, new_hash);
    let i = choose|i: int| 0 <= i < users.len() && users[i].id == id;
    assert(users2 == users.update(i, DbUser { password: new_hash, ..users[i] }));
    assert forall|a: int, b: int| 0 <= a < b < users2.len() implies users2[a].id != users2[b].id by {
        assert(users2[a].id == users[a].id);
        assert(users2[b].id == users[b].id);
    }
    lemma_find_by_id_at(users2, id, i);
}

/// A user who belongs to no group holds no permission at all: the
/// effective permission set is empty.
pub proof fn lemma_no_groups_no_permissions(store: CredentialStore, uid: int)
    requires
        forall|j: int|
            0 <= j < store.memberships@.len() ==> (#[trigger] store.memberships@[j]).user_id
                != uid,
    ensures
        forall|name: Seq<char>| !(#[trigger] store.has_permission(uid, name)),
{
    assert forall|name: Seq<char>| !(#[trigger] store.has_permission(uid, name)) by {
        if store.has_permission(uid, name) {
            let gid = choose|gid: int|
                #[trigger] crate::credential_store::member_of(store.memberships@, uid, gid)
                    && crate::credential_store::grants_perm(store.grants@, gid, name);
            let m = choose|m: int|
                0 <= m < store.memberships@.len() && store.memberships@[m].user_id == uid
                    && store.memberships@[m].group_id == gid;
            assert(false);
        }
    }
}

/// A logically expired session is unusable while its row still stands:
/// once `expires_at` is reached the token resolves to anonymous, yet the
/// record remains readable until logout or the sweeper physically removes
/// it.
pub proof fn lemma_expired_session_is_anonymous(
    users: Seq<DbUser>,
    sessions: Seq<Session>,
    it: int,
    now: u64,
)
    requires
        unique_tokens(sessions),
        0 <= it < sessions.len(),
        sessions[it].expires_at <= now,
    ensures
        spec_read(sessions, sessions[it].token@) == Some(sessions[it]),
        spec_resolve(users, sessions, sessions[it].token@, now) == None::<User>,
{
    lemma_spec_read_at(sessions, sessions[it].token@, it);
}

/// A session whose fingerprint no longer equals the current password hash
/// of its user (or whose user is gone) resolves to anonymous, without
/// error and without its row being touched: the resolution path is
/// read-only, deletion happens only through logout or the sweeper.
pub proof fn lemma_fingerprint_mismatch_is_anonymous(
    users: Seq<DbUser>,
    sessions: Seq<Session>,
    it: int,
    now: u64,
)
    requires
        unique_tokens(sessions),
        0 <= it < sessions.len(),
        spec_find_by_id(users, sessions[it].user_id as int) matches Some(u)
            ==> u.password@ != sessions[it].fingerprint@,
    ensures
        spec_read(sessions, sessions[it].token@) == Some(sessions[it]),
        spec_resolve(users, sessions, sessions[it].token@, now) == None::<User>,
{
    lemma_spec_read_at(sessions, sessions[it].token@, it);
}

/// Session records under distinct tokens are independent: a record pushed
/// under a fresh token changes what no other token resolves to.
pub proof fn lemma_new_session_leaves_others(
    users: Seq<DbUser>,
    sessions: Seq<Session>,
    record: Session,
    other: Seq<char>,
    now: u64,
)
    requires
        unique_tokens(sessions),
        !has_token(sessions, record.token@),
        other != record.token@,
    ensures
        spec_resolve(users, sessions.push(record), other, now) == spec_resolve(
            users,
            sessions,
            other,
            now,
        ),
{
    let s2 = sessions.push(record);
    assert forall|a: int, b: int| 0 <= a < b < s2.len() implies s2[a].token@ != s2[b].token@ by {
        if b < sessions.len() {
            assert(sessions[a].token@ != sessions[b].token@);
        } else {
            assert(s2[a] == sessions[a]);
            assert(s2[b].token@ == record.token@);
        }
    }
    if has_token(sessions, other) {
        let i = choose|i: int| 0 <= i < sessions.len() && sessions[i].token@ == other;
        assert(s2[i] == sessions[i]);
        lemma_spec_read_at(s2, other, i);
        lemma_spec_read_at(sessions, other, i);
    } else {
        if has_token(s2, other) {
            let k = choose|k: int| 0 <= k < s2.len() && s2[k].token@ == other;
            if k < sessions.len() {
                assert(sessions[k].token@ == other);
            } else {
                assert(s2[k].token@ == record.token@);
            }
            assert(false);
        }
    }
}

/// Sliding one session's expiry window changes what no other token
/// resolves to.
pub proof fn lemma_touch_leaves_others(
    users: Seq<DbUser>,
    sessions: Seq<Session>,
    tok: Seq<char>,
    new_expiry: u64,
    other: Seq<char>,
    now: u64,
)
    requires
        unique_tokens(sessions),
        other != tok,
    ensures
        spec_resolve(users, spec_touch(sessions, tok, new_expiry), other, now) == spec_resolve(
            users,
            sessions,
            other,
            now,
        ),
{
    if has_token(sessions, tok) {
        let i = choose|i: int| 0 <= i < sessions.len() && sessions[i].token@ == tok;
        let s2 = sessions.update(i, touched(sessions[i], new_expiry));
        assert(spec_touch(sessions, tok, new_expiry) == s2);
        assert(forall|k: int| 0 <= k < s2.len() ==> s2[k].token@ == sessions[k].token@);
        assert forall|a: int, b: int|
            0 <= a < b < s2.len() implies s2[a].token@ != s2[b].token@ by {
            assert(sessions[a].token@ != sessions[b].token@);
        }
        if has_token(sessions, other) {
            let j = choose|j: int| 0 <= j < sessions.len() && sessions[j].token@ == other;
            assert(j != i);
            assert(s2[j] == sessions[j]);
            lemma_spec_read_at(s2, other, j);
            lemma_spec_read_at(sessions, other, j);
        } else {
            if has_token(s2, other) {
                let k = choose|k: int| 0 <= k < s2.len() && s2[k].token@ == other;
                assert(sessions[k].token@ == other);
                assert(false);
            }
        }
    }
}

/// Revoking one session changes what no other token resolves to: logging
/// one client out leaves every other client's session exactly as it was.
pub proof fn lemma_logout_leaves_others(
    users: Seq<DbUser>,
    sessions: Seq<Session>,
    tok: Seq<char>,
    other: Seq<char>,
    now: u64,
)
    requires
        unique_tokens(sessions),
        other != tok,
    ensures
        spec_resolve(users, spec_delete(sessions, tok), other, now) == spec_resolve(
            users,
            sessions,
            other,
            now,
        ),
{
    let d = spec_delete(sessions, tok);
    lemma_filter_unique_tokens(sessions, keep_token(tok));
    if has_token(sessions, other) {
        let i = choose|i: int| 0 <= i < sessions.len() && sessions[i].token@ == other;
        assert(keep_token(tok)(sessions[i]));
        Seq::<Session>::lemma_filter_contains(sessions, keep_token(tok), i);
        assert(d.contains(sessions[i]));
        let k = choose|k: int| 0 <= k < d.len() && d[k] == sessions[i];
        lemma_spec_read_at(d, other, k);
        lemma_spec_read_at(sessions, other, i);
    } else {
        if has_token(d, other) {
            let k = choose|k: int| 0 <= k < d.len() && d[k].token@ == other;
            lemma_filter_member_token(sessions, keep_token(tok), k);
            let j = choose|j: int|
                0 <= j < sessions.len() && #[trigger] sessions[j].token@ == d[k].token@;
            assert(false);
        }
    }
}

/// Every record of a swept store is physically live: the filter keeps only
/// records with `expires_at >= now`.
proof fn lemma_filter_all(t: Seq<Session>, pred: spec_fn(Session) -> bool)
    requires
        forall|i: int| 0 <= i < t.len() ==> pred(#[trigger] t[i]),
    ensures
        t.filter(pred) == t,
    decreases t.len(),
{
    reveal(Seq::filter);
    if t.len() == 0 {
        assert(t.filter(pred) =~= t);
    } else {
        let sub = t.drop_last();
        assert forall|i: int| 0 <= i < sub.len() implies pred(#[trigger] sub[i]) by {
            assert(sub[i] == t[i]);
        }
        lemma_filter_all(sub, pred);
        assert(pred(t.last()));
        assert(t.filter(pred) =~= t);
    }
}

/// Sweeping is exhaustive: a second sweep at the same instant finds
/// nothing left to remove, so running the sweeper twice in a row removes
/// zero rows the second time.
pub proof fn lemma_sweep_twice_removes_nothing(sessions: Seq<Session>, now: u64)
    ensures
        spec_sweep(spec_sweep(sessions, now), now) == spec_sweep(sessions, now),
{
    let swept = spec_sweep(sessions, now);
    assert forall|k: int| 0 <= k < swept.len() implies live_at(now)(#[trigger] swept[k]) by {
        Seq::<Session>::lemma_filter_pred(sessions, live_at(now), k);
    }
    lemma_filter_all(swept, live_at(now));
}

/// The sweep keeps exactly the records that had not expired: membership in
/// the swept store is membership in the old store plus `expires_at >= now`.
pub proof fn lemma_sweep_exact(sessions: Seq<Session>, now: u64)
    ensures
        forall|x: Session|
            spec_sweep(sessions, now).contains(x) <==> (sessions.contains(x) && x.expires_at
                >= now),
    decreases sessions.len(),
{
    reveal(Seq::filter);
    let swept = spec_sweep(sessions, now);
    if sessions.len() == 0 {
        assert forall|x: Session| !swept.contains(x) && !sessions.contains(x) by {
            assert(swept.len() == 0);
        }
    } else {
        let sub = sessions.drop_last();
        lemma_sweep_exact(sub, now);
        let subswept = spec_sweep(sub, now);
        assert forall|x: Session|
            swept.contains(x) <==> (sessions.contains(x) && x.expires_at >= now) by {
            assert(forall|j: int| 0 <= j < sub.len() ==> sub[j] == sessions[j]);
            if live_at(now)(sessions.last()) {
                assert(swept == subswept.push(sessions.last()));
            } else {
                assert(swept == subswept);
            }
            if swept.contains(x) {
                let k = choose|k: int| 0 <= k < swept.len() && swept[k] == x;
                Seq::<Session>::lemma_filter_pred(sessions, live_at(now), k);
                assert(x.expires_at >= now);
                if live_at(now)(sessions.last()) && k == swept.len() - 1 {
                    assert(sessions[sessions.len() - 1] == x);
                    assert(sessions.contains(x));
                } else {
                    assert(subswept[k] == x);
                    assert(subswept.contains(x));
                    assert(sub.contains(x));
                    let j = choose|j: int| 0 <= j < sub.len() && sub[j] == x;
                    assert(sessions[j] == x);
                    assert(sessions.contains(x));
                }
            }
            if sessions.contains(x) && x.expires_at >= now {
                let j = choose|j: int| 0 <= j < sessions.len() && sessions[j] == x;
                if j < sub.len() {
                    assert(sub[j] == x);
                    assert(sub.contains(x));
                    assert(subswept.contains(x));
                    let k = choose|k: int| 0 <= k < subswept.len() && subswept[k] == x;
                    assert(swept[k] == x);
                    assert(swept.contains(x));
                } else {
                    assert(sessions.last() == x);
                    assert(live_at(now)(x));
                    assert(swept[swept.len() - 1] == x);
                    assert(swept.contains(x));
                }
            }
        }
    }
}

} // verus!
