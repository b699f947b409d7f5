//! Accounts: the two-step user builder, point lookups, login-name lookup
//! with secret verification, updates, and the cascading delete that keeps
//! the permission and preference tables in step with the user table.

use vstd::prelude::*;
use crate::credentials::{check_secret, digest_matches, digest_wf, make_digest, peppered};
use crate::entities::{Permission, Preference, User};
use crate::error::Error;
use crate::ids::{lemma_max_key_bound, max_key};
use crate::store::{
    Store, accounts_ok, ids_ok, lemma_filter_single_out, lemma_push_new_id, lemma_remove_insert,
    permission_uids, preference_uids, user_ids,
};

verus! {

/// Capability flags accumulated for a user before the account is committed.
#[derive(Clone, Copy, Debug, PartialEq, Eq, Structural)]
pub struct PermissionsBuilder {
    pub admin: bool,
    pub view_pending: bool,
    pub view_received: bool,
    pub edit_pending: bool,
    pub create_orders: bool,
    pub edit_received: bool,
    pub remove_orders: bool,
    pub edit_products: bool,
    pub view_products: bool,
    pub view_suppliers: bool,
}

/// Every flag off.
pub open spec fn no_permissions() -> PermissionsBuilder {
    PermissionsBuilder {
        admin: false,
        view_pending: false,
        view_received: false,
        edit_pending: false,
        create_orders: false,
        edit_received: false,
        remove_orders: false,
        edit_products: false,
        view_products: false,
        view_suppliers: false,
    }
}

impl Default for PermissionsBuilder {
    /// A builder that grants nothing.
    fn default() -> (r: Self)
        ensures
            r == no_permissions(),
    {
        PermissionsBuilder {
            admin: false,
            view_pending: false,
            view_received: false,
            edit_pending: false,
            create_orders: false,
            edit_received: false,
            remove_orders: false,
            edit_products: false,
            view_products: false,
            view_suppliers: false,
        }
    }
}

/// Per-user settings accumulated before the account is committed; empty for
/// now, like the preference row itself.
#[derive(Clone, Copy, Debug, PartialEq, Eq, Structural)]
pub struct PreferencesBuilder {}

impl Default for PreferencesBuilder {
    fn default() -> (r: Self)
        ensures
            r == (PreferencesBuilder {  }),
    {
        PreferencesBuilder {  }
    }
}

/// The permission row that committing `b` for user `user_id` writes.
pub open spec fn permission_from(user_id: i32, b: PermissionsBuilder) -> Permission {
    Permission {
        user_id,
        admin: b.admin,
        view_pending: b.view_pending,
        view_received: b.view_received,
        edit_pending: b.edit_pending,
        create_orders: b.create_orders,
        edit_received: b.edit_received,
        remove_orders: b.remove_orders,
        edit_products: b.edit_products,
        view_products: b.view_products,
        view_suppliers: b.view_suppliers,
    }
}

/// Insert a full account: the user row plus its permission and preference
/// rows, all keyed by a user id that is not yet taken.
pub(crate) fn insert_account(
    store: &mut Store,
    user: User,
    perm: Permission,
    pref: Preference,
)
    requires
        old(store).wf(),
        perm.user_id == user.id,
        pref.user_id == user.id,
        !old(store).has_user(user.id),
        user.id < i32::MAX,
    ensures
        final(store).wf(),
        final(store).users@ == old(store).users@.push(user),
        final(store).permissions@ == old(store).permissions@.push(perm),
        final(store).preferences@ == old(store).preferences@.push(pref),
        final(store).products == old(store).products,
        final(store).categories == old(store).categories,
        final(store).suppliers == old(store).suppliers,
        final(store).brands == old(store).brands,
        final(store).pending_orders == old(store).pending_orders,
        final(store).received_orders == old(store).received_orders,
{
    let ghost users0 = store.users@;
    let ghost perms0 = store.permissions@;
    let ghost prefs0 = store.preferences@;
    let ghost id = user.id;
    store.users.push(user);
    store.permissions.push(perm);
    store.preferences.push(pref);
    proof {
        let uids = user_ids(users0);
        let pids = permission_uids(perms0);
        let fids = preference_uids(prefs0);
        assert(user_ids(store.users@) =~= uids.push(id));
        assert(permission_uids(store.permissions@) =~= pids.push(id));
        assert(preference_uids(store.preferences@) =~= fids.push(id));
        assert forall|c: int| 0 <= c < pids.len() implies pids[c] != id by {
            assert(uids.contains((perms0[c]).user_id));
        }
        assert forall|c: int| 0 <= c < fids.len() implies fids[c] != id by {
            assert(uids.contains((prefs0[c]).user_id));
        }
        lemma_push_new_id(uids, id);
        lemma_push_new_id(pids, id);
        lemma_push_new_id(fids, id);
        assert forall|i: int| 0 <= i < store.users@.len()
            implies permission_uids(store.permissions@).contains(
                (#[trigger] store.users@[i]).id,
            ) by {
            if i < users0.len() {
                assert(pids.contains(users0[i].id));
                let c = choose|c: int| 0 <= c < pids.len() && pids[c] == users0[i].id;
                assert(permission_uids(store.permissions@)[c] == users0[i].id);
            } else {
                assert(permission_uids(store.permissions@)[pids.len() as int] == id);
            }
        }
        assert forall|i: int| 0 <= i < store.users@.len()
            implies preference_uids(store.preferences@).contains(
                (#[trigger] store.users@[i]).id,
            ) by {
            if i < users0.len() {
                assert(fids.contains(users0[i].id));
                let c = choose|c: int| 0 <= c < fids.len() && fids[c] == users0[i].id;
                assert(preference_uids(store.preferences@)[c] == users0[i].id);
            } else {
                assert(preference_uids(store.preferences@)[fids.len() as int] == id);
            }
        }
        assert forall|i: int| 0 <= i < store.permissions@.len()
            implies user_ids(store.users@).contains(
                (#[trigger] store.permissions@[i]).user_id,
            ) by {
            if i < perms0.len() {
                assert(uids.contains(perms0[i].user_id));
                let c = choose|c: int| 0 <= c < uids.len() && uids[c] == perms0[i].user_id;
                assert(user_ids(store.users@)[c] == perms0[i].user_id);
            } else {
                assert(user_ids(store.users@)[users0.len() as int] == id);
            }
        }
        assert forall|i: int| 0 <= i < store.preferences@.len()
            implies user_ids(store.users@).contains(
                (#[trigger] store.preferences@[i]).user_id,
            ) by {
            if i < prefs0.len() {
                assert(uids.contains(prefs0[i].user_id));
                let c = choose|c: int| 0 <= c < uids.len() && uids[c] == prefs0[i].user_id;
                assert(user_ids(store.users@)[c] == prefs0[i].user_id);
            } else {
                assert(user_ids(store.users@)[users0.len() as int] == id);
            }
        }
    }
}

/// Accumulates a user account before it is committed to the store.
pub struct UserBuilder {
    pub name: String,
    pub email: String,
    pub password: String,
    pub permissions: PermissionsBuilder,
    pub preferences: PreferencesBuilder,
}

impl UserBuilder {
    /// Start an account: the secret is peppered and hashed right away, so
    /// the builder never holds the plaintext. Fails only if the hashing
    /// primitive fails.
    pub fn new(name: String, password: &str, pepper: &str) -> (r: Result<UserBuilder, Error>)
        ensures
            match r {
                Ok(b) => {
                    &&& b.name == name
                    &&& b.email@ == Seq::<char>::empty()
                    &&& digest_matches(peppered(password@, pepper@), b.password@)
                    &&& digest_wf(b.password@)
                    &&& b.permissions == no_permissions()
                },
                Err(e) => e == Error::Fault,
            },
    {
        let digest = match make_digest(password, pepper) {
            Ok(d) => d,
            Err(e) => {
                return Err(e);
            },
        };
        Ok(UserBuilder {
            name,
            email: String::new(),
            password: digest,
            permissions: Default::default(),
            preferences: Default::default(),
        })
    }

    /// Set the email field.
    pub fn with_email(self, email: &str) -> (r: Self)
        ensures
            r.name == self.name,
            r.email@ == email@,
            r.password == self.password,
            r.permissions == self.permissions,
            r.preferences == self.preferences,
    {
        UserBuilder {
            email: email.to_owned(),
            name: self.name,
            password: self.password,
            permissions: self.permissions,
            preferences: self.preferences,
        }
    }

    /// Replace the capability flags.
    pub fn with_permissions(self, perms: PermissionsBuilder) -> (r: Self)
        ensures
            r.name == self.name,
            r.email == self.email,
            r.password == self.password,
            r.permissions == perms,
            r.preferences == self.preferences,
    {
        UserBuilder {
            permissions: perms,
            name: self.name,
            email: self.email,
            password: self.password,
            preferences: self.preferences,
        }
    }

    /// Replace the settings.
    pub fn with_preferences(self, preferences: PreferencesBuilder) -> (r: Self)
        ensures
            r.name == self.name,
            r.email == self.email,
            r.password == self.password,
            r.permissions == self.permissions,
            r.preferences == preferences,
    {
        UserBuilder {
            preferences,
            name: self.name,
            email: self.email,
            password: self.password,
            permissions: self.permissions,
        }
    }

    /// Commit the account: allocate the next user id and write the user,
    /// permission and preference rows in one step.
    pub fn build(self, store: &mut Store) -> (r: i32)
        requires
            old(store).wf(),
            max_key(user_ids(old(store).users@)) + 1 < i32::MAX,
        ensures
            final(store).wf(),
            r == max_key(user_ids(old(store).users@)) + 1,
            !old(store).has_user(r),
            final(store).users@ == old(store).users@.push(
                (User { id: r, name: self.name, email: self.email, password: self.password }),
            ),
            final(store).permissions@ == old(store).permissions@.push(
                permission_from(r, self.permissions),
            ),
            final(store).preferences@ == old(store).preferences@.push(
                (Preference { user_id: r }),
            ),
            final(store).products == old(store).products,
            final(store).categories == old(store).categories,
            final(store).suppliers == old(store).suppliers,
            final(store).brands == old(store).brands,
            final(store).pending_orders == old(store).pending_orders,
            final(store).received_orders == old(store).received_orders,
    {
        let user_id = store.next_user_id();
        proof {
            lemma_max_key_bound(user_ids(store.users@));
        }
        let row = User {
            id: user_id,
            name: self.name,
            password: self.password,
            email: self.email,
        };
        let perm = Permission {
            user_id,
            admin: self.permissions.admin,
            create_orders: self.permissions.create_orders,
            edit_pending: self.permissions.edit_pending,
            edit_products: self.permissions.edit_products,
            view_pending: self.permissions.view_pending,
            edit_received: self.permissions.edit_received,
            view_received: self.permissions.view_received,
            remove_orders: self.permissions.remove_orders,
            view_products: self.permissions.view_products,
            view_suppliers: self.permissions.view_suppliers,
        };
        let pref = Preference { user_id };
        insert_account(store, row, perm, pref);
        user_id
    }
}

/// The index `j` holds the first user row carrying `name`.
pub open spec fn is_first_named(users: Seq<User>, name: Seq<char>, j: int) -> bool {
    &&& 0 <= j < users.len()
    &&& users[j].name@ == name
    &&& forall|k: int| 0 <= k < j ==> (#[trigger] users[k]).name@ != name
}

impl User {
    /// Look a user up by exact login name; the first matching row wins.
    pub fn from_name(store: &Store, username: &str) -> (r: Result<User, Error>)
        ensures
            match r {
                Ok(u) => exists|j: int|
                    #![trigger store.users@[j]]
                    is_first_named(store.users@, username@, j) && u@ == store.users@[j]@,
                Err(e) => e == Error::NotFound && !store.has_user_named(username@),
            },
    {
        match store.find_user_named(username) {
            Some(i) => {
                let u = store.users[i].clone();
                proof {
                    assert(is_first_named(store.users@, username@, i as int));
                }
                Ok(u)
            },
            None => Err(Error::NotFound),
        }
    }

    /// Authenticate: look the user up by name, then check the claimed
    /// secret against the stored digest under the pepper scheme. Success
    /// is owed whenever the found user's digest is well formed and
    /// matches; a fault can only come from a malformed stored digest.
    pub fn get(store: &Store, username: &str, userpassword: &str, pepper: &str) -> (r: Result<
        User,
        Error,
    >)
        ensures
            match r {
                Ok(u) => {
                    &&& exists|j: int|
                        #![trigger store.users@[j]]
                        is_first_named(store.users@, username@, j) && u@ == store.users@[j]@
                    &&& digest_wf(u.password@)
                    &&& digest_matches(peppered(userpassword@, pepper@), u.password@)
                },
                Err(e) => match e {
                    Error::NotFound => !store.has_user_named(username@),
                    Error::AuthenticationDenied => exists|j: int|
                        #![trigger store.users@[j]]
                        is_first_named(store.users@, username@, j) && digest_wf(
                            store.users@[j].password@,
                        ) && !digest_matches(
                            peppered(userpassword@, pepper@),
                            store.users@[j].password@,
                        ),
                    Error::Fault => exists|j: int|
                        #![trigger store.users@[j]]
                        is_first_named(store.users@, username@, j) && !digest_wf(
                            store.users@[j].password@,
                        ),
                    _ => false,
                },
            },
    {
        let i = match store.find_user_named(username) {
            Some(i) => i,
            None => {
                return Err(Error::NotFound);
            },
        };
        proof {
            assert(is_first_named(store.users@, username@, i as int));
        }
        match check_secret(userpassword, pepper, store.users[i].password.as_str()) {
            Ok(true) => Ok(store.users[i].clone()),
            Ok(false) => Err(Error::AuthenticationDenied),
            Err(e) => Err(e),
        }
    }

    /// Look a user up by primary key.
    pub fn from_id(store: &Store, id: i32) -> (r: Result<User, Error>)
        ensures
            match r {
                Ok(u) => store.has_user(id) && u.id == id && exists|j: int|
                    0 <= j < store.users@.len() && u@ == (#[trigger] store.users@[j])@,
                Err(e) => e == Error::NotFound && !store.has_user(id),
            },
    {
        match store.find_user(id) {
            Some(i) => Ok(store.users[i].clone()),
            None => Err(Error::NotFound),
        }
    }

    /// Overwrite the row whose id matches; a missing id updates nothing,
    /// as a keyed update of zero rows.
    pub fn update(self, store: &mut Store)
        requires
            old(store).wf(),
        ensures
            final(store).wf(),
            final(store).users@.len() == old(store).users@.len(),
            forall|j: int|
                0 <= j < old(store).users@.len() && (#[trigger] old(store).users@[j]).id != self.id
                    ==> final(store).users@[j] == old(store).users@[j],
            forall|j: int|
                0 <= j < old(store).users@.len() && (#[trigger] old(store).users@[j]).id == self.id
                    ==> final(store).users@[j] == self,
            final(store).permissions == old(store).permissions,
            final(store).preferences == old(store).preferences,
            final(store).products == old(store).products,
            final(store).categories == old(store).categories,
            final(store).suppliers == old(store).suppliers,
            final(store).brands == old(store).brands,
            final(store).pending_orders == old(store).pending_orders,
            final(store).received_orders == old(store).received_orders,
    {
        let ghost users0 = store.users@;
        match store.find_user(self.id) {
            Some(i) => {
                let ghost id = self.id;
                let _ = store.users.remove(i);
                store.users.insert(i, self);
                proof {
                    lemma_remove_insert(users0, i as int, store.users@[i as int]);
                    assert(user_ids(store.users@) =~= user_ids(users0));
                    assert forall|j: int|
                        0 <= j < users0.len() && (#[trigger] users0[j]).id == id
                        implies store.users@[j] == store.users@[i as int] by {
                        if j != i as int {
                            assert(user_ids(users0)[j] == user_ids(users0)[i as int]);
                        }
                    }
                    assert forall|j: int| 0 <= j < store.users@.len()
                        implies permission_uids(store.permissions@).contains(
                            (#[trigger] store.users@[j]).id,
                        ) by {
                        assert(users0[j].id == store.users@[j].id);
                        assert(permission_uids(store.permissions@).contains(users0[j].id));
                    }
                    assert forall|j: int| 0 <= j < store.users@.len()
                        implies preference_uids(store.preferences@).contains(
                            (#[trigger] store.users@[j]).id,
                        ) by {
                        assert(users0[j].id == store.users@[j].id);
                        assert(preference_uids(store.preferences@).contains(users0[j].id));
                    }
                }
            },
            None => {},
        }
    }

    /// Delete the user row and, with it, its permission and preference
    /// rows.
    pub fn delete(store: &mut Store, id: i32)
        requires
            old(store).wf(),
        ensures
            final(store).wf(),
            final(store).users@ == old(store).users@.filter(|u: User| u.id != id),
            final(store).permissions@ == old(store).permissions@.filter(
                |p: Permission| p.user_id != id,
            ),
            final(store).preferences@ == old(store).preferences@.filter(
                |p: Preference| p.user_id != id,
            ),
            !final(store).has_user(id),
            final(store).products == old(store).products,
            final(store).categories == old(store).categories,
            final(store).suppliers == old(store).suppliers,
            final(store).brands == old(store).brands,
            final(store).pending_orders == old(store).pending_orders,
            final(store).received_orders == old(store).received_orders,
    {
        let ghost users0 = store.users@;
        let ghost perms0 = store.permissions@;
        let ghost prefs0 = store.preferences@;
        match store.find_user(id) {
            Some(i) => {
                let _ = store.users.remove(i);
                proof {
                    assert forall|j: int| 0 <= j < users0.len() && j != i as int
                        implies (|u: User| u.id != id)(#[trigger] users0[j]) by {
                        assert(user_ids(users0)[j] != user_ids(users0)[i as int]);
                    }
                    lemma_filter_single_out(users0, |u: User| u.id != id, i as int);
                }
            },
            None => {
                proof {
                    assert forall|j: int| 0 <= j < users0.len()
                        implies (|u: User| u.id != id)(#[trigger] users0[j]) by {
                        assert(user_ids(users0)[j] == users0[j].id);
                    }
                    crate::store::lemma_filter_all_true(users0, |u: User| u.id != id);
                }
            },
        }
        match store.find_permission(id) {
            Some(i) => {
                let _ = store.permissions.remove(i);
                proof {
                    assert forall|j: int| 0 <= j < perms0.len() && j != i as int
                        implies (|p: Permission| p.user_id != id)(#[trigger] perms0[j]) by {
                        assert(permission_uids(perms0)[j] != permission_uids(perms0)[i as int]);
                    }
                    lemma_filter_single_out(perms0, |p: Permission| p.user_id != id, i as int);
                }
            },
            None => {
                proof {
                    assert forall|j: int| 0 <= j < perms0.len()
                        implies (|p: Permission| p.user_id != id)(#[trigger] perms0[j]) by {
                        assert(permission_uids(perms0)[j] == perms0[j].user_id);
                    }
                    crate::store::lemma_filter_all_true(perms0, |p: Permission| p.user_id != id);
                }
            },
        }
        match store.find_preference(id) {
            Some(i) => {
                let _ = store.preferences.remove(i);
                proof {
                    assert forall|j: int| 0 <= j < prefs0.len() && j != i as int
                        implies (|p: Preference| p.user_id != id)(#[trigger] prefs0[j]) by {
                        assert(preference_uids(prefs0)[j] != preference_uids(prefs0)[i as int]);
                    }
                    lemma_filter_single_out(prefs0, |p: Preference| p.user_id != id, i as int);
                }
            },
            None => {
                proof {
                    assert forall|j: int| 0 <= j < prefs0.len()
                        implies (|p: Preference| p.user_id != id)(#[trigger] prefs0[j]) by {
                        assert(preference_uids(prefs0)[j] == prefs0[j].user_id);
                    }
                    crate::store::lemma_filter_all_true(prefs0, |p: Preference| p.user_id != id);
                }
            },
        }
        proof {
            lemma_delete_accounts_ok(users0, perms0, prefs0, id);
            assert forall|j: int| 0 <= j < user_ids(store.users@).len()
                implies user_ids(store.users@)[j] != id by {
                assert(store.users@[j].id != id);
            }
        }
    }

    /// The permission row of this user; its absence is a fault, not an
    /// all-denied default.
    pub fn get_permissions(&self, store: &Store) -> (r: Result<Permission, Error>)
        requires
            store.wf(),
        ensures
            match r {
                Ok(p) => store.has_permission(self.id) && p == permission_for(*store, self.id),
                Err(e) => e == Error::NotFound && !store.has_permission(self.id),
            },
    {
        match store.find_permission(self.id) {
            Some(i) => {
                let p = store.permissions[i];
                proof {
                    lemma_permission_for(*store, self.id, i as int);
                }
                Ok(p)
            },
            None => Err(Error::NotFound),
        }
    }

    /// The preference row of this user.
    pub fn get_preferences(&self, store: &Store) -> (r: Result<Preference, Error>)
        ensures
            match r {
                Ok(p) => store.has_preference(self.id) && p.user_id == self.id,
                Err(e) => e == Error::NotFound && !store.has_preference(self.id),
            },
    {
        match store.find_preference(self.id) {
            Some(i) => Ok(store.preferences[i]),
            None => Err(Error::NotFound),
        }
    }
}

/// Law: in a well-formed store every user row has its permission row and
/// its preference row — there are no orphaned users. Every operation of
/// this crate preserves well-formedness, so this holds at all times.
pub proof fn lemma_every_user_has_permission_and_preference(s: Store)
    requires
        s.wf(),
    ensures
        forall|j: int|
            0 <= j < s.users@.len() ==> s.has_permission((#[trigger] s.users@[j]).id)
                && s.has_preference(s.users@[j].id),
{
}

/// The permission row carrying `user_id`, meaningful when the store is
/// well formed and the row exists.
pub open spec fn permission_for(s: Store, user_id: i32) -> Permission {
    s.permissions@[choose|j: int|
        0 <= j < s.permissions@.len() && (#[trigger] s.permissions@[j]).user_id == user_id]
}

/// Under uniqueness, any index carrying `user_id` holds the row
/// `permission_for` names.
pub proof fn lemma_permission_for(s: Store, user_id: i32, i: int)
    requires
        ids_ok(permission_uids(s.permissions@)),
        0 <= i < s.permissions@.len(),
        s.permissions@[i].user_id == user_id,
    ensures
        permission_for(s, user_id) == s.permissions@[i],
{
    let j = choose|j: int|
        0 <= j < s.permissions@.len() && (#[trigger] s.permissions@[j]).user_id == user_id;
    if i != j {
        assert(permission_uids(s.permissions@)[i] == user_id);
        assert(permission_uids(s.permissions@)[j] == user_id);
    }
}

/// Filtering one user id out of the three account tables keeps them
/// consistent with one another.
proof fn lemma_delete_accounts_ok(
    users: Seq<User>,
    perms: Seq<Permission>,
    prefs: Seq<Preference>,
    id: i32,
)
    requires
        accounts_ok(users, perms, prefs),
    ensures
        accounts_ok(
            users.filter(|u: User| u.id != id),
            perms.filter(|p: Permission| p.user_id != id),
            prefs.filter(|p: Preference| p.user_id != id),
        ),
{
    broadcast use vstd::seq_lib::group_filter_ensures;

    let fu = users.filter(|u: User| u.id != id);
    let fp = perms.filter(|p: Permission| p.user_id != id);
    let ff = prefs.filter(|p: Preference| p.user_id != id);
    {
        let ku = |u: User| u.id;
        let kp = |p: Permission| p.user_id;
        let kf = |p: Preference| p.user_id;
        assert(users.map_values(ku) =~= user_ids(users));
        assert(perms.map_values(kp) =~= permission_uids(perms));
        assert(prefs.map_values(kf) =~= preference_uids(prefs));
        crate::store::lemma_filter_ids_ok(users, |u: User| u.id != id, ku);
        crate::store::lemma_filter_ids_ok(perms, |p: Permission| p.user_id != id, kp);
        crate::store::lemma_filter_ids_ok(prefs, |p: Preference| p.user_id != id, kf);
        assert(fu.map_values(ku) =~= user_ids(fu));
        assert(fp.map_values(kp) =~= permission_uids(fp));
        assert(ff.map_values(kf) =~= preference_uids(ff));
        assert forall|a: int, b: int| #![trigger users[a], users[b]]
            0 <= a < b < users.len() implies ku(users[a]) != ku(users[b]) by {
            assert(user_ids(users)[a] == users[a].id);
            assert(user_ids(users)[b] == users[b].id);
        }
        assert forall|a: int, b: int| #![trigger perms[a], perms[b]]
            0 <= a < b < perms.len() implies kp(perms[a]) != kp(perms[b]) by {
            assert(permission_uids(perms)[a] == perms[a].user_id);
            assert(permission_uids(perms)[b] == perms[b].user_id);
        }
        assert forall|a: int, b: int| #![trigger prefs[a], prefs[b]]
            0 <= a < b < prefs.len() implies kf(prefs[a]) != kf(prefs[b]) by {
            assert(preference_uids(prefs)[a] == prefs[a].user_id);
            assert(preference_uids(prefs)[b] == prefs[b].user_id);
        }
        crate::store::lemma_filter_distinct(users, |u: User| u.id != id, ku);
        crate::store::lemma_filter_distinct(perms, |p: Permission| p.user_id != id, kp);
        crate::store::lemma_filter_distinct(prefs, |p: Preference| p.user_id != id, kf);
        assert forall|i: int| 0 <= i < fu.len()
            implies permission_uids(fp).contains((#[trigger] fu[i]).id) by {
            assert(users.contains(fu[i]));
            let c = choose|c: int| 0 <= c < users.len() && users[c] == fu[i];
            assert(permission_uids(perms).contains(users[c].id));
            let d = choose|d: int|
                0 <= d < permission_uids(perms).len() && permission_uids(perms)[d] == users[c].id;
            assert(perms[d].user_id == fu[i].id);
            assert(fu[i].id != id);
            assert((|p: Permission| p.user_id != id)(perms[d]));
            assert(perms.filter(|p: Permission| p.user_id != id).contains(perms[d]));
            let e = choose|e: int| 0 <= e < fp.len() && fp[e] == perms[d];
            assert(permission_uids(fp)[e] == fu[i].id);
        }
        assert forall|i: int| 0 <= i < fu.len()
            implies preference_uids(ff).contains((#[trigger] fu[i]).id) by {
            assert(users.contains(fu[i]));
            let c = choose|c: int| 0 <= c < users.len() && users[c] == fu[i];
            assert(preference_uids(prefs).contains(users[c].id));
            let d = choose|d: int|
                0 <= d < preference_uids(prefs).len() && preference_uids(prefs)[d] == users[c].id;
            assert(prefs[d].user_id == fu[i].id);
            assert((|p: Preference| p.user_id != id)(prefs[d]));
            assert(prefs.filter(|p: Preference| p.user_id != id).contains(prefs[d]));
            let e = choose|e: int| 0 <= e < ff.len() && ff[e] == prefs[d];
            assert(preference_uids(ff)[e] == fu[i].id);
        }
        assert forall|i: int| 0 <= i < fp.len()
            implies user_ids(fu).contains((#[trigger] fp[i]).user_id) by {
            assert(perms.contains(fp[i]));
            let c = choose|c: int| 0 <= c < perms.len() && perms[c] == fp[i];
            assert(user_ids(users).contains(perms[c].user_id));
            let d = choose|d: int|
                0 <= d < user_ids(users).len() && user_ids(users)[d] == perms[c].user_id;
            assert(users[d].id == fp[i].user_id);
            assert(fp[i].user_id != id);
            assert((|u: User| u.id != id)(users[d]));
            assert(users.filter(|u: User| u.id != id).contains(users[d]));
            let e = choose|e: int| 0 <= e < fu.len() && fu[e] == users[d];
            assert(user_ids(fu)[e] == fp[i].user_id);
        }
        assert forall|i: int| 0 <= i < ff.len()
            implies user_ids(fu).contains((#[trigger] ff[i]).user_id) by {
            assert(prefs.contains(ff[i]));
            let c = choose|c: int| 0 <= c < prefs.len() && prefs[c] == ff[i];
            assert(user_ids(users).contains(prefs[c].user_id));
            let d = choose|d: int|
                0 <= d < user_ids(users).len() && user_ids(users)[d] == prefs[c].user_id;
            assert(users[d].id == ff[i].user_id);
            assert((|u: User| u.id != id)(users[d]));
            assert(users.filter(|u: User| u.id != id).contains(users[d]));
            let e = choose|e: int| 0 <= e < fu.len() && fu[e] == users[d];
            assert(user_ids(fu)[e] == ff[i].user_id);
        }
    }
}

} // verus!
