//! The session store: a persistent key-value store of session records keyed
//! by an opaque token.
//!
//! A session carries a fingerprint — the user's password hash as it stood at
//! session creation — and an absolute expiry instant. Logical expiry (the
//! session stops resolving at `expires_at`) is decoupled from physical
//! deletion (`delete_expired`, run by the background sweeper): an expired
//! row may linger, unusable, until the next sweep.

use vstd::prelude::*;

verus! {

/// One session record.
pub struct Session {
    /// The opaque, high-entropy key of the record.
    pub token: String,
    /// The user the session authenticates.
    pub user_id: i64,
    /// Snapshot of the user's password hash at creation time; the session is
    /// valid only while this still equals the user's current hash.
    pub fingerprint: String,
    /// Creation instant, in seconds.
    pub created_at: u64,
    /// The instant from which the session no longer resolves; slid forward
    /// on each resolved use.
    pub expires_at: u64,
}

impl Session {
    /// An explicit deep copy.
    pub fn duplicate(&self) -> (r: Session)
        ensures
            r == *self,
    {
        Session {
            token: self.token.clone(),
            user_id: self.user_id,
            fingerprint: self.fingerprint.clone(),
            created_at: self.created_at,
            expires_at: self.expires_at,
        }
    }
}

/// No two records share a token.
pub open spec fn unique_tokens(s: Seq<Session>) -> bool {
    forall|i: int, j: int| 0 <= i < j < s.len() ==> s[i].token@ != s[j].token@
}

/// Some record carries this token.
pub open spec fn has_token(s: Seq<Session>, tok: Seq<char>) -> bool {
    exists|i: int| 0 <= i < s.len() && s[i].token@ == tok
}

/// The record carrying this token; meaningful when tokens are unique.
pub open spec fn spec_read(s: Seq<Session>, tok: Seq<char>) -> Option<Session> {
    if has_token(s, tok) {
        Some(s[choose|i: int| 0 <= i < s.len() && s[i].token@ == tok])
    } else {
        None
    }
}

/// A session with its expiry slid to `new_expiry`.
pub open spec fn touched(s: Session, new_expiry: u64) -> Session {
    Session { expires_at: new_expiry, ..s }
}

/// The store after `touch`: the record with this token (if any) carries the
/// new expiry, everything else is untouched.
pub open spec fn spec_touch(s: Seq<Session>, tok: Seq<char>, new_expiry: u64) -> Seq<Session> {
    if has_token(s, tok) {
        let i = choose|i: int| 0 <= i < s.len() && s[i].token@ == tok;
        s.update(i, touched(s[i], new_expiry))
    } else {
        s
    }
}

/// Keeps every record but the one with this token.
pub open spec fn keep_token(tok: Seq<char>) -> spec_fn(Session) -> bool {
    |s: Session| s.token@ != tok
}

/// The store after `delete`.
pub open spec fn spec_delete(s: Seq<Session>, tok: Seq<char>) -> Seq<Session> {
    s.filter(keep_token(tok))
}

/// Keeps every record that has not physically expired by `now`.
pub open spec fn live_at(now: u64) -> spec_fn(Session) -> bool {
    |s: Session| s.expires_at >= now
}

/// The store after the sweeper's `delete_expired(now)`: exactly the records
/// with `expires_at < now` are gone, in-order.
pub open spec fn spec_sweep(s: Seq<Session>, now: u64) -> Seq<Session> {
    s.filter(live_at(now))
}

/// Under unique tokens, any matching index determines the lookup result.
pub proof fn lemma_spec_read_at(s: Seq<Session>, tok: Seq<char>, i: int)
    requires
        unique_tokens(s),
        0 <= i < s.len(),
        s[i].token@ == tok,
    ensures
        spec_read(s, tok) == Some(s[i]),
{
    assert(has_token(s, tok));
    let k = choose|k: int| 0 <= k < s.len() && s[k].token@ == tok;
    if k < i {
        assert(s[k].token@ != s[i].token@);
    } else if i < k {
        assert(s[i].token@ != s[k].token@);
    }
}

/// Relies on `tower_sessions::session::Id`: `Id::default` draws a fresh
/// 128-bit id from the process RNG, and its display form encodes it as
/// exactly 22 base64 characters. The value is random, so nothing more is
/// promised of it.
#[verifier::external_body]
fn random_token() -> (r: String)
    ensures
        r@.len() == 22,
{
    tower_sessions::session::Id::default().to_string()
}

/// Durable storage of session records, shared by every request handler and
/// the expiry sweeper.
pub struct SessionStore {
    pub sessions: Vec<Session>,
}

impl SessionStore {
    /// The store's invariant: tokens are unique keys.
    pub open spec fn wf(&self) -> bool {
        unique_tokens(self.sessions@)
    }

    /// An empty store.
    pub fn new() -> (r: SessionStore)
        ensures
            r.sessions@ == Seq::<Session>::empty(),
            r.wf(),
    {
        SessionStore { sessions: Vec::new() }
    }

    /// Whether a record with this token exists.
    pub fn contains_token(&self, token: &String) -> (r: bool)
        ensures
            r == has_token(self.sessions@, token@),
    {
        let n = self.sessions.len();
        let mut i: usize = 0;
        while i < n
            invariant
                n == self.sessions@.len(),
                i <= n,
                forall|j: int| 0 <= j < i ==> (#[trigger] self.sessions@[j]).token@ != token@,
            decreases n - i,
        {
            if self.sessions[i].token == *token {
                return true;
            }
            i += 1;
        }
        false
    }

    /// Creates a session for `user_id` with the given fingerprint and
    /// expiry, under a freshly generated random token, which is returned.
    /// The token is new to the store: on the vanishingly rare collision a
    /// fresh one is drawn rather than overwriting the existing record, and
    /// after a fixed number of colliding draws — which a working random
    /// source never produces in practice — the store is left unchanged and
    /// no session is created.
    pub fn create(
        &mut self,
        user_id: i64,
        fingerprint: &String,
        created_at: u64,
        expires_at: u64,
    ) -> (r: Option<String>)
        requires
            old(self).wf(),
        ensures
            final(self).wf(),
            r matches Some(token) ==> {
                &&& !has_token(old(self).sessions@, token@)
                &&& final(self).sessions@ == old(self).sessions@.push(
                    Session {
                        token,
                        user_id,
                        fingerprint: *fingerprint,
                        created_at,
                        expires_at,
                    },
                )
                &&& spec_read(final(self).sessions@, token@) == Some(
                    Session {
                        token,
                        user_id,
                        fingerprint: *fingerprint,
                        created_at,
                        expires_at,
                    },
                )
            },
            r is None ==> *final(self) == *old(self),
    {
        let mut attempts: usize = 0;
        while attempts < 16
            invariant
                self.wf(),
                *self == *old(self),
            decreases 16 - attempts,
        {
            let token = random_token();
            if !self.contains_token(&token) {
                let record = Session {
                    token: token.clone(),
                    user_id,
                    fingerprint: fingerprint.clone(),
                    created_at,
                    expires_at,
                };
                let ghost prev = self.sessions@;
                self.sessions.push(record);
                proof {
                    assert forall|i: int, j: int|
                        0 <= i < j < self.sessions@.len() implies self.sessions@[i].token@
                        != self.sessions@[j].token@ by {
                        if j < prev.len() {
                        } else {
                            assert(self.sessions@[j].token@ == token@);
                            assert(self.sessions@[i] == prev[i]);
                        }
                    }
                    lemma_spec_read_at(self.sessions@, token@, prev.len() as int);
                }
                return Some(token);
            }
            attempts += 1;
        }
        None
    }

    /// Reads the record under this token, if one exists.
    pub fn read(&self, token: &String) -> (r: Option<Session>)
        requires
            self.wf(),
        ensures
            r == spec_read(self.sessions@, token@),
    {
        let n = self.sessions.len();
        let mut i: usize = 0;
        while i < n
            invariant
                n == self.sessions@.len(),
                i <= n,
                self.wf(),
                forall|j: int| 0 <= j < i ==> (#[trigger] self.sessions@[j]).token@ != token@,
            decreases n - i,
        {
            if self.sessions[i].token == *token {
                let s = self.sessions[i].duplicate();
                proof {
                    lemma_spec_read_at(self.sessions@, token@, i as int);
                }
                return Some(s);
            }
            i += 1;
        }
        assert(!has_token(self.sessions@, token@));
        None
    }

    /// Slides the expiry of the record under this token to `new_expiry`.
    /// Returns whether such a record exists; without one, nothing changes.
    pub fn touch(&mut self, token: &String, new_expiry: u64) -> (r: bool)
        requires
            old(self).wf(),
        ensures
            final(self).wf(),
            r == has_token(old(self).sessions@, token@),
            final(self).sessions@ == spec_touch(old(self).sessions@, token@, new_expiry),
    {
        let n = self.sessions.len();
        let mut i: usize = 0;
        while i < n
            invariant
                n == self.sessions@.len(),
                i <= n,
                self.wf(),
                *self == *old(self),
                forall|j: int| 0 <= j < i ==> (#[trigger] self.sessions@[j]).token@ != token@,
            decreases n - i,
        {
            if self.sessions[i].token == *token {
                let ghost prev = self.sessions@;
                let updated = Session {
                    token: self.sessions[i].token.clone(),
                    user_id: self.sessions[i].user_id,
                    fingerprint: self.sessions[i].fingerprint.clone(),
                    created_at: self.sessions[i].created_at,
                    expires_at: new_expiry,
                };
                self.sessions[i] = updated;
                proof {
                    assert(has_token(prev, token@));
                    let k = choose|k: int| 0 <= k < prev.len() && prev[k].token@ == token@;
                    if k < i as int {
                        assert(prev[k].token@ != prev[i as int].token@);
                    } else if (i as int) < k {
                        assert(prev[i as int].token@ != prev[k].token@);
                    }
                    assert(self.sessions@ =~= spec_touch(prev, token@, new_expiry));
                    assert forall|a: int, b: int|
                        0 <= a < b < self.sessions@.len() implies self.sessions@[a].token@
                        != self.sessions@[b].token@ by {
                        assert(prev[a].token@ != prev[b].token@);
                    }
                }
                return true;
            }
            i += 1;
        }
        assert(!has_token(self.sessions@, token@));
        false
    }

    /// Deletes the record under this token. Idempotent: deleting an absent
    /// token is not an error and changes nothing.
    pub fn delete(&mut self, token: &String)
        requires
            old(self).wf(),
        ensures
            final(self).wf(),
            final(self).sessions@ == spec_delete(old(self).sessions@, token@),
            !has_token(final(self).sessions@, token@),
    {
        let ghost whole = self.sessions@;
        let ghost pred = keep_token(token@);
        let n = self.sessions.len();
        let mut kept: Vec<Session> = Vec::new();
        let mut i: usize = 0;
        while i < n
            invariant
                n == whole.len(),
                i <= n,
                self.sessions@ == whole,
                unique_tokens(whole),
                pred == keep_token(token@),
                kept@ == whole.subrange(0, i as int).filter(pred),
                forall|k: int|
                    0 <= k < kept@.len() ==> exists|j: int|
                        0 <= j < i && #[trigger] kept@[k] == whole[j],
            decreases n - i,
        {
            let ghost prefix = whole.subrange(0, i as int);
            let ghost next_prefix = whole.subrange(0, i as int + 1);
            proof {
                reveal(Seq::filter);
                assert(next_prefix.drop_last() =~= prefix);
                assert(next_prefix.last() == whole[i as int]);
            }
            if self.sessions[i].token == *token {
                assert(!pred(whole[i as int]));
                assert(kept@ == next_prefix.filter(pred));
            } else {
                let s = self.sessions[i].duplicate();
                let ghost before = kept@;
                kept.push(s);
                proof {
                    assert(pred(whole[i as int]));
                    assert(kept@ == before.push(whole[i as int]));
                    assert(kept@ == next_prefix.filter(pred));
                    assert forall|k: int| 0 <= k < kept@.len() implies exists|j: int|
                        0 <= j < i + 1 && #[trigger] kept@[k] == whole[j] by {
                        if k < before.len() {
                            let j = choose|j: int| 0 <= j < i && #[trigger] before[k] == whole[j];
                            assert(kept@[k] == whole[j]);
                        } else {
                            assert(kept@[k] == whole[i as int]);
                        }
                    }
                }
            }
            i += 1;
        }
        proof {
            assert(whole.subrange(0, n as int) =~= whole);
            assert forall|a: int, b: int|
                0 <= a < b < kept@.len() implies kept@[a].token@ != kept@[b].token@ by {
                let ja = choose|j: int| 0 <= j < n && #[trigger] kept@[a] == whole[j];
                let jb = choose|j: int| 0 <= j < n && #[trigger] kept@[b] == whole[j];
                Seq::<Session>::lemma_filter_pred(whole, pred, a);
                Seq::<Session>::lemma_filter_pred(whole, pred, b);
                if ja == jb {
                    lemma_filter_distinct_indices(whole, pred, a, b);
                } else if ja < jb {
                    assert(whole[ja].token@ != whole[jb].token@);
                } else {
                    assert(whole[jb].token@ != whole[ja].token@);
                }
            }
            assert forall|k: int| 0 <= k < kept@.len() implies kept@[k].token@ != token@ by {
                Seq::<Session>::lemma_filter_pred(whole, pred, k);
            }
        }
        self.sessions = kept;
    }

    /// The sweeper's bulk deletion: removes exactly the records with
    /// `expires_at < now`, leaves every other record untouched and in
    /// order, and returns how many were removed.
    pub fn delete_expired(&mut self, now: u64) -> (count: usize)
        requires
            old(self).wf(),
        ensures
            final(self).wf(),
            final(self).sessions@ == spec_sweep(old(self).sessions@, now),
            count == old(self).sessions@.len() - final(self).sessions@.len(),
    {
        let ghost whole = self.sessions@;
        let ghost pred = live_at(now);
        let n = self.sessions.len();
        let mut kept: Vec<Session> = Vec::new();
        let mut removed: usize = 0;
        let mut i: usize = 0;
        while i < n
            invariant
                n == whole.len(),
                i <= n,
                self.sessions@ == whole,
                unique_tokens(whole),
                pred == live_at(now),
                kept@ == whole.subrange(0, i as int).filter(pred),
                removed == i - kept@.len(),
                forall|k: int|
                    0 <= k < kept@.len() ==> exists|j: int|
                        0 <= j < i && #[trigger] kept@[k] == whole[j],
            decreases n - i,
        {
            let ghost prefix = whole.subrange(0, i as int);
            let ghost next_prefix = whole.subrange(0, i as int + 1);
            proof {
                reveal(Seq::filter);
                assert(next_prefix.drop_last() =~= prefix);
                assert(next_prefix.last() == whole[i as int]);
                Seq::<Session>::lemma_filter_len(prefix, pred);
            }
            if self.sessions[i].expires_at < now {
                removed += 1;
                assert(!pred(whole[i as int]));
                assert(kept@ == next_prefix.filter(pred));
            } else {
                let s = self.sessions[i].duplicate();
                let ghost before = kept@;
                kept.push(s);
                proof {
                    assert(pred(whole[i as int]));
                    assert(kept@ == before.push(whole[i as int]));
                    assert(kept@ == next_prefix.filter(pred));
                    assert forall|k: int| 0 <= k < kept@.len() implies exists|j: int|
                        0 <= j < i + 1 && #[trigger] kept@[k] == whole[j] by {
                        if k < before.len() {
                            let j = choose|j: int| 0 <= j < i && #[trigger] before[k] == whole[j];
                            assert(kept@[k] == whole[j]);
                        } else {
                            assert(kept@[k] == whole[i as int]);
                        }
                    }
                }
            }
            i += 1;
        }
        proof {
            assert(whole.subrange(0, n as int) =~= whole);
            assert forall|a: int, b: int|
                0 <= a < b < kept@.len() implies kept@[a].token@ != kept@[b].token@ by {
                let ja = choose|j: int| 0 <= j < n && #[trigger] kept@[a] == whole[j];
                let jb = choose|j: int| 0 <= j < n && #[trigger] kept@[b] == whole[j];
                if ja == jb {
                    lemma_filter_distinct_indices(whole, pred, a, b);
                } else if ja < jb {
                    assert(whole[ja].token@ != whole[jb].token@);
                } else {
                    assert(whole[jb].token@ != whole[ja].token@);
                }
            }
        }
        self.sessions = kept;
        removed
    }
}

/// Filtering preserves the token-uniqueness invariant.
pub proof fn lemma_filter_unique_tokens(s: Seq<Session>, pred: spec_fn(Session) -> bool)
    requires
        unique_tokens(s),
    ensures
        unique_tokens(s.filter(pred)),
{
    assert forall|a: int, b: int|
        0 <= a < b < s.filter(pred).len() implies s.filter(pred)[a].token@
        != s.filter(pred)[b].token@ by {
        lemma_filter_distinct_indices(s, pred, a, b);
    }
}

/// Two distinct positions of a filtered sequence hold records with distinct
/// tokens, provided tokens were unique in the original sequence.
proof fn lemma_filter_distinct_indices(
    s: Seq<Session>,
    pred: spec_fn(Session) -> bool,
    a: int,
    b: int,
)
    requires
        unique_tokens(s),
        0 <= a < b < s.filter(pred).len(),
    ensures
        s.filter(pred)[a].token@ != s.filter(pred)[b].token@,
    decreases s.len(),
{
    reveal(Seq::filter);
    if s.len() > 0 {
        let sub = s.drop_last();
        assert forall|x: int, y: int|
            0 <= x < y < sub.len() implies sub[x].token@ != sub[y].token@ by {
            assert(s[x].token@ != s[y].token@);
        }
        if pred(s.last()) {
            let f = sub.filter(pred);
            if b < f.len() {
                lemma_filter_distinct_indices(sub, pred, a, b);
            } else {
                // b is the appended last element; a lies in the filtered prefix
                lemma_filter_member_token(sub, pred, a);
                let j = choose|j: int|
                    0 <= j < sub.len() && #[trigger] sub[j].token@ == f[a].token@;
                assert(s[j].token@ != s[s.len() - 1].token@);
            }
        } else {
            lemma_filter_distinct_indices(sub, pred, a, b);
        }
    }
}

/// Every token in a filtered sequence occurs in the original.
pub proof fn lemma_filter_member_token(s: Seq<Session>, pred: spec_fn(Session) -> bool, k: int)
    requires
        0 <= k < s.filter(pred).len(),
    ensures
        exists|j: int| 0 <= j < s.len() && #[trigger] s[j].token@ == s.filter(pred)[k].token@,
    decreases s.len(),
{
    reveal(Seq::filter);
    if s.len() > 0 {
        let sub = s.drop_last();
        let f = sub.filter(pred);
        if pred(s.last()) && k == s.filter(pred).len() - 1 {
            assert(s[s.len() - 1].token@ == s.filter(pred)[k].token@);
        } else {
            lemma_filter_member_token(sub, pred, k);
            let j = choose|j: int| 0 <= j < sub.len() && #[trigger] sub[j].token@ == f[k].token@;
            assert(s[j].token@ == s.filter(pred)[k].token@);
        }
    }
}

} // verus!
