//! The credential store: user records and the user→group→permission relation.
//!
//! The store models the relational tables `users`, `users_groups` and
//! `groups_permissions` as in-memory rows with explicit invariants (unique
//! user ids and usernames). Lookups are specified through `choose`-based
//! spec functions that are deterministic under those invariants.

use vstd::prelude::*;
use crate::user::{DbPermission, DbUser};

verus! {

/// One row of the many-to-many user↔group relation.
pub struct GroupMembership {
    pub user_id: i64,
    pub group_id: i64,
}

/// One row of the many-to-many group↔permission relation.
pub struct GroupGrant {
    pub group_id: i64,
    pub permission: String,
}

/// No two user records share an id.
pub open spec fn unique_ids(users: Seq<DbUser>) -> bool {
    forall|i: int, j: int|
        0 <= i < j < users.len() ==> users[i].id != users[j].id
}

/// No two user records share a username.
pub open spec fn unique_usernames(users: Seq<DbUser>) -> bool {
    forall|i: int, j: int|
        0 <= i < j < users.len() ==> users[i].username@ != users[j].username@
}

/// Some record carries this username.
pub open spec fn has_user_named(users: Seq<DbUser>, name: Seq<char>) -> bool {
    exists|i: int| 0 <= i < users.len() && users[i].username@ == name
}

/// The record carrying this username; meaningful when usernames are unique.
pub open spec fn spec_find_by_username(users: Seq<DbUser>, name: Seq<char>) -> Option<DbUser> {
    if has_user_named(users, name) {
        Some(users[choose|i: int| 0 <= i < users.len() && users[i].username@ == name])
    } else {
        None
    }
}

/// Some record carries this id.
pub open spec fn has_user_id(users: Seq<DbUser>, id: int) -> bool {
    exists|i: int| 0 <= i < users.len() && users[i].id == id
}

/// The record carrying this id; meaningful when ids are unique.
pub open spec fn spec_find_by_id(users: Seq<DbUser>, id: int) -> Option<DbUser> {
    if has_user_id(users, id) {
        Some(users[choose|i: int| 0 <= i < users.len() && users[i].id == id])
    } else {
        None
    }
}

/// The user sequence after the password-change path ran for `id`: the record
/// with that id (if any) carries `new_hash`, everything else is untouched.
pub open spec fn spec_set_password(users: Seq<DbUser>, id: int, new_hash: String) -> Seq<DbUser> {
    if has_user_id(users, id) {
        let i = choose|i: int| 0 <= i < users.len() && users[i].id == id;
        users.update(i, DbUser { password: new_hash, ..users[i] })
    } else {
        users
    }
}

/// Under unique usernames, any matching index determines the lookup result.
pub proof fn lemma_find_by_username_at(users: Seq<DbUser>, name: Seq<char>, i: int)
    requires
        unique_usernames(users),
        0 <= i < users.len(),
        users[i].username@ == name,
    ensures
        spec_find_by_username(users, name) == Some(users[i]),
{
    assert(has_user_named(users, name));
    let k = choose|k: int| 0 <= k < users.len() && users[k].username@ == name;
    if k < i {
        assert(users[k].username@ != users[i].username@);
    } else if i < k {
        assert(users[i].username@ != users[k].username@);
    }
}

/// Under unique ids, any matching index determines the lookup result.
pub proof fn lemma_find_by_id_at(users: Seq<DbUser>, id: int, i: int)
    requires
        unique_ids(users),
        0 <= i < users.len(),
        users[i].id == id,
    ensures
        spec_find_by_id(users, id) == Some(users[i]),
{
    assert(has_user_id(users, id));
    let k = choose|k: int| 0 <= k < users.len() && users[k].id == id;
    if k < i {
        assert(users[k].id != users[i].id);
    } else if i < k {
        assert(users[i].id != users[k].id);
    }
}

/// The user→group→permission join, specified row by row: `uid` belongs to
/// group `gid`.
pub open spec fn member_of(ms: Seq<GroupMembership>, uid: int, gid: int) -> bool {
    exists|i: int| 0 <= i < ms.len() && ms[i].user_id == uid && ms[i].group_id == gid
}

/// Group `gid` grants the permission named `name`.
pub open spec fn grants_perm(gs: Seq<GroupGrant>, gid: int, name: Seq<char>) -> bool {
    exists|i: int| 0 <= i < gs.len() && gs[i].group_id == gid && gs[i].permission@ == name
}

/// Reads user records and the group relations; wraps what the relational
/// store holds.
pub struct CredentialStore {
    pub users: Vec<DbUser>,
    pub memberships: Vec<GroupMembership>,
    pub grants: Vec<GroupGrant>,
}

impl CredentialStore {
    /// The store's invariant: user ids and usernames are unique.
    pub open spec fn wf(&self) -> bool {
        unique_ids(self.users@) && unique_usernames(self.users@)
    }

    /// `uid` holds the permission `name` through some group membership.
    pub open spec fn has_permission(&self, uid: int, name: Seq<char>) -> bool {
        exists|gid: int|
            #[trigger] member_of(self.memberships@, uid, gid)
                && grants_perm(self.grants@, gid, name)
    }

    /// `perms` is the effective permission set of `uid`: duplicate-free,
    /// sound (every entry is granted through some group) and complete
    /// (every granted name appears).
    pub open spec fn is_permission_set(&self, uid: int, perms: Seq<DbPermission>) -> bool {
        &&& forall|k1: int, k2: int|
            0 <= k1 < k2 < perms.len() ==> perms[k1].name@ != perms[k2].name@
        &&& forall|k: int|
            0 <= k < perms.len() ==> self.has_permission(uid, #[trigger] perms[k].name@)
        &&& forall|name: Seq<char>|
            #[trigger] self.has_permission(uid, name) ==> exists|k: int|
                0 <= k < perms.len() && perms[k].name@ == name
    }

    /// An empty store.
    pub fn new() -> (r: CredentialStore)
        ensures
            r.users@ == Seq::<DbUser>::empty(),
            r.memberships@ == Seq::<GroupMembership>::empty(),
            r.grants@ == Seq::<GroupGrant>::empty(),
            r.wf(),
    {
        CredentialStore { users: Vec::new(), memberships: Vec::new(), grants: Vec::new() }
    }

    /// Adds a user record. Succeeds exactly when neither the id nor the
    /// username is taken; on failure the store is unchanged.
    pub fn add_user(&mut self, user: DbUser) -> (r: bool)
        requires
            old(self).wf(),
        ensures
            final(self).wf(),
            r == (!has_user_id(old(self).users@, user.id as int)
                && !has_user_named(old(self).users@, user.username@)),
            r ==> final(self).users@ == old(self).users@.push(user),
            !r ==> final(self).users@ == old(self).users@,
            final(self).memberships@ == old(self).memberships@,
            final(self).grants@ == old(self).grants@,
    {
        let taken_id = self.find_by_id(user.id).is_some();
        let taken_name = self.find_by_username(&user.username).is_some();
        if taken_id || taken_name {
            false
        } else {
            self.users.push(user);
            true
        }
    }

    /// Records that `user_id` belongs to `group_id`.
    pub fn add_membership(&mut self, user_id: i64, group_id: i64)
        ensures
            final(self).users@ == old(self).users@,
            final(self).memberships@ == old(self).memberships@.push(
                GroupMembership { user_id, group_id },
            ),
            final(self).grants@ == old(self).grants@,
    {
        self.memberships.push(GroupMembership { user_id, group_id });
    }

    /// Records that `group_id` grants the permission named `permission`.
    pub fn add_grant(&mut self, group_id: i64, permission: String)
        ensures
            final(self).users@ == old(self).users@,
            final(self).memberships@ == old(self).memberships@,
            final(self).grants@ == old(self).grants@.push(GroupGrant { group_id, permission }),
    {
        self.grants.push(GroupGrant { group_id, permission });
    }

    /// Looks a user up by username.
    pub fn find_by_username(&self, name: &String) -> (r: Option<DbUser>)
        requires
            self.wf(),
        ensures
            r == spec_find_by_username(self.users@, name@),
    {
        let n = self.users.len();
        let mut i: usize = 0;
        while i < n
            invariant
                n == self.users@.len(),
                i <= n,
                self.wf(),
                forall|j: int| 0 <= j < i ==> self.users@[j].username@ != name@,
            decreases n - i,
        {
            if self.users[i].username == *name {
                let u = self.users[i].duplicate();
                proof {
                    lemma_find_by_username_at(self.users@, name@, i as int);
                }
                return Some(u);
            }
            i += 1;
        }
        assert(!has_user_named(self.users@, name@));
        None
    }

    /// Looks a user up by id.
    pub fn find_by_id(&self, id: i64) -> (r: Option<DbUser>)
        requires
            self.wf(),
        ensures
            r == spec_find_by_id(self.users@, id as int),
    {
        let n = self.users.len();
        let mut i: usize = 0;
        while i < n
            invariant
                n == self.users@.len(),
                i <= n,
                self.wf(),
                forall|j: int| 0 <= j < i ==> self.users@[j].id != id,
            decreases n - i,
        {
            if self.users[i].id == id {
                let u = self.users[i].duplicate();
                proof {
                    lemma_find_by_id_at(self.users@, id as int, i as int);
                }
                return Some(u);
            }
            i += 1;
        }
        assert(!has_user_id(self.users@, id as int));
        None
    }

    /// The explicit password-change path: replaces the stored hash of the
    /// user with this id. Returns whether such a user exists; sessions are
    /// not touched here — outstanding ones die through the fingerprint check
    /// at resolution time.
    pub fn set_password(&mut self, user_id: i64, new_hash: String) -> (r: bool)
        requires
            old(self).wf(),
        ensures
            final(self).wf(),
            r == has_user_id(old(self).users@, user_id as int),
            final(self).users@ == spec_set_password(old(self).users@, user_id as int, new_hash),
            final(self).memberships@ == old(self).memberships@,
            final(self).grants@ == old(self).grants@,
    {
        let n = self.users.len();
        let mut i: usize = 0;
        while i < n
            invariant
                n == self.users@.len(),
                i <= n,
                self.wf(),
                *self == *old(self),
                forall|j: int| 0 <= j < i ==> self.users@[j].id != user_id,
            decreases n - i,
        {
            if self.users[i].id == user_id {
                proof {
                    lemma_find_by_id_at(self.users@, user_id as int, i as int);
                }
                let updated = DbUser {
                    id: user_id,
                    username: self.users[i].username.clone(),
                    password: new_hash,
                };
                let ghost prev = self.users@;
                self.users[i] = updated;
                proof {
                    let k = choose|k: int| 0 <= k < prev.len() && prev[k].id == user_id as int;
                    assert(k == i as int);
                    assert(self.users@ =~= spec_set_password(prev, user_id as int, new_hash));
                }
                return true;
            }
            i += 1;
        }
        assert(!has_user_id(self.users@, user_id as int));
        false
    }

    /// The effective permission set of a user: the union, without
    /// duplicates, of the permissions granted through all of the user's
    /// group memberships. A user in no group gets the empty set, not an
    /// error.
    pub fn effective_permissions(&self, user_id: i64) -> (r: Vec<DbPermission>)
        ensures
            self.is_permission_set(user_id as int, r@),
            // a user in no group gets the empty set
            (forall|j: int|
                0 <= j < self.memberships@.len()
                    ==> (#[trigger] self.memberships@[j].user_id) != user_id) ==> r@.len() == 0,
    {
        let mut result: Vec<DbPermission> = Vec::new();
        let ng = self.grants.len();
        let mut i: usize = 0;
        while i < ng
            invariant
                ng == self.grants@.len(),
                i <= ng,
                forall|k1: int, k2: int|
                    0 <= k1 < k2 < result@.len() ==> result@[k1].name@ != result@[k2].name@,
                forall|k: int|
                    0 <= k < result@.len()
                        ==> self.has_permission(user_id as int, #[trigger] result@[k].name@),
                forall|j: int|
                    0 <= j < i && member_of(
                        self.memberships@,
                        user_id as int,
                        (#[trigger] self.grants@[j]).group_id as int,
                    ) ==> exists|k: int|
                        0 <= k < result@.len() && result@[k].name@ == self.grants@[j].permission@,
            decreases ng - i,
        {
            let in_group = self.user_in_group(user_id, self.grants[i].group_id);
            if in_group && !contains_name(&result, &self.grants[i].permission) {
                let ghost before = result@;
                result.push(DbPermission { name: self.grants[i].permission.clone() });
                assert(forall|k: int|
                    0 <= k < before.len() ==> result@[k].name@ == before[k].name@);
                assert(result@[before.len() as int].name@ == self.grants@[i as int].permission@);
                assert(grants_perm(
                    self.grants@,
                    self.grants@[i as int].group_id as int,
                    self.grants@[i as int].permission@,
                ));
            }
            i += 1;
        }
        proof {
            assert forall|name: Seq<char>|
                #[trigger] self.has_permission(user_id as int, name) implies exists|k: int|
                0 <= k < result@.len() && result@[k].name@ == name by {
                let gid = choose|gid: int|
                    #[trigger] member_of(self.memberships@, user_id as int, gid)
                        && grants_perm(self.grants@, gid, name);
                let j = choose|j: int|
                    0 <= j < self.grants@.len() && self.grants@[j].group_id == gid
                        && self.grants@[j].permission@ == name;
                assert(member_of(
                    self.memberships@,
                    user_id as int,
                    self.grants@[j].group_id as int,
                ));
            }
            if forall|j: int|
                0 <= j < self.memberships@.len()
                    ==> (#[trigger] self.memberships@[j].user_id) != user_id {
                if result@.len() > 0 {
                    assert(self.has_permission(user_id as int, result@[0].name@));
                    let gid = choose|gid: int|
                        #[trigger] member_of(self.memberships@, user_id as int, gid)
                            && grants_perm(self.grants@, gid, result@[0].name@);
                    let m = choose|m: int|
                        0 <= m < self.memberships@.len()
                            && self.memberships@[m].user_id == user_id as int
                            && self.memberships@[m].group_id == gid;
                    assert(false);
                }
            }
        }
        result
    }

    /// Whether some membership row joins `uid` to `gid`.
    fn user_in_group(&self, uid: i64, gid: i64) -> (r: bool)
        ensures
            r == member_of(self.memberships@, uid as int, gid as int),
    {
        let n = self.memberships.len();
        let mut i: usize = 0;
        while i < n
            invariant
                n == self.memberships@.len(),
                i <= n,
                forall|j: int|
                    0 <= j < i ==> !((#[trigger] self.memberships@[j]).user_id == uid
                        && self.memberships@[j].group_id == gid),
            decreases n - i,
        {
            if self.memberships[i].user_id == uid && self.memberships[i].group_id == gid {
                return true;
            }
            i += 1;
        }
        assert(!member_of(self.memberships@, uid as int, gid as int));
        false
    }
}

/// Whether the accumulated permission list already carries `name`.
fn contains_name(v: &Vec<DbPermission>, name: &String) -> (r: bool)
    ensures
        r == exists|k: int| 0 <= k < v@.len() && (#[trigger] v@[k]).name@ == name@,
{
    let n = v.len();
    let mut i: usize = 0;
    while i < n
        invariant
            n == v@.len(),
            i <= n,
            forall|j: int| 0 <= j < i ==> (#[trigger] v@[j]).name@ != name@,
        decreases n - i,
    {
        if v[i].name == *name {
            return true;
        }
        i += 1;
    }
    false
}

} // verus!
