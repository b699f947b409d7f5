//! The in-memory model of the relational store: one vector per table,
//! a well-formedness predicate (unique primary keys per table, keys small
//! enough that the allocator can always hand out the next one, and a
//! permission and preference row for every user), and the point-lookup
//! helpers the operations are built on.

use vstd::prelude::*;
use crate::entities::{
    Brand, Category, PendingOrder, Permission, Preference, Product, ReceivedOrder, Supplier, User,
};
use crate::ids::{max_key, lemma_max_key_bound, next_id};

verus! {

/// No key occurs twice.
pub open spec fn unique_seq(ids: Seq<i32>) -> bool {
    forall|a: int, b: int| 0 <= a < b < ids.len() ==> ids[a] != ids[b]
}

/// Every key leaves room for `max_key + 1`.
pub open spec fn keys_small(ids: Seq<i32>) -> bool {
    forall|a: int| 0 <= a < ids.len() ==> ids[a] < i32::MAX
}

/// A healthy primary-key column.
pub open spec fn ids_ok(ids: Seq<i32>) -> bool {
    unique_seq(ids) && keys_small(ids)
}

/// The id column of the user table.
pub open spec fn user_ids(rows: Seq<User>) -> Seq<i32> {
    rows.map_values(|r: User| r.id)
}

/// The user_id column of the permission table.
pub open spec fn permission_uids(rows: Seq<Permission>) -> Seq<i32> {
    rows.map_values(|r: Permission| r.user_id)
}

/// The user_id column of the preference table.
pub open spec fn preference_uids(rows: Seq<Preference>) -> Seq<i32> {
    rows.map_values(|r: Preference| r.user_id)
}

/// The id column of the product table.
pub open spec fn product_ids(rows: Seq<Product>) -> Seq<i32> {
    rows.map_values(|r: Product| r.id)
}

/// The id column of the category table.
pub open spec fn category_ids(rows: Seq<Category>) -> Seq<i32> {
    rows.map_values(|r: Category| r.id)
}

/// The id column of the supplier table.
pub open spec fn supplier_ids(rows: Seq<Supplier>) -> Seq<i32> {
    rows.map_values(|r: Supplier| r.id)
}

/// The id column of the brand table.
pub open spec fn brand_ids(rows: Seq<Brand>) -> Seq<i32> {
    rows.map_values(|r: Brand| r.id)
}

/// The id column of the pending-order table.
pub open spec fn pending_ids(rows: Seq<PendingOrder>) -> Seq<i32> {
    rows.map_values(|r: PendingOrder| r.id)
}

/// The id column of the received-order table.
pub open spec fn received_ids(rows: Seq<ReceivedOrder>) -> Seq<i32> {
    rows.map_values(|r: ReceivedOrder| r.id)
}

/// Every element of a filtered sequence comes from the original, and
/// filtering cannot make two distinct keys collide.
pub proof fn lemma_filter_distinct<T>(s: Seq<T>, pred: spec_fn(T) -> bool, key: spec_fn(T) -> i32)
    requires
        forall|a: int, b: int| #![trigger s[a], s[b]] 0 <= a < b < s.len() ==> key(s[a]) != key(s[b]),
    ensures
        forall|a: int| 0 <= a < s.filter(pred).len() ==> s.contains(#[trigger] s.filter(pred)[a]),
        forall|a: int, b: int|
            #![trigger s.filter(pred)[a], s.filter(pred)[b]]
            0 <= a < b < s.filter(pred).len() ==> key(s.filter(pred)[a]) != key(s.filter(pred)[b]),
    decreases s.len(),
{
    reveal(Seq::filter);
    if s.len() > 0 {
        let rest = s.drop_last();
        assert forall|a: int, b: int| #![trigger rest[a], rest[b]]
            0 <= a < b < rest.len() implies key(rest[a]) != key(rest[b]) by {
            assert(rest[a] == s[a]);
            assert(rest[b] == s[b]);
        }
        lemma_filter_distinct(rest, pred, key);
        let f = s.filter(pred);
        let rf = rest.filter(pred);
        assert forall|a: int| 0 <= a < f.len() implies s.contains(#[trigger] f[a]) by {
            if a < rf.len() {
                assert(rest.contains(rf[a]));
                let c = choose|c: int| 0 <= c < rest.len() && rest[c] == rf[a];
                assert(s[c] == f[a]);
            } else {
                assert(f[a] == s[s.len() - 1]);
            }
        }
        assert forall|a: int, b: int|
            #![trigger f[a], f[b]]
            0 <= a < b < f.len() implies key(f[a]) != key(f[b]) by {
            if b < rf.len() {
                assert(f[a] == rf[a] && f[b] == rf[b]);
            } else {
                assert(f[b] == s[s.len() - 1]);
                assert(rest.contains(rf[a]));
                let c = choose|c: int| 0 <= c < rest.len() && rest[c] == rf[a];
                assert(key(s[c]) != key(s[s.len() - 1]));
            }
        }
    }
}

/// A key that is not yet taken can be appended without harming the column.
pub proof fn lemma_push_new_id(ids: Seq<i32>, id: i32)
    requires
        ids_ok(ids),
        !ids.contains(id),
        id < i32::MAX,
    ensures
        ids_ok(ids.push(id)),
{
    assert forall|a: int, b: int| 0 <= a < b < ids.push(id).len()
        implies ids.push(id)[a] != ids.push(id)[b] by {
        if b < ids.len() {
            assert(ids.push(id)[a] == ids[a] && ids.push(id)[b] == ids[b]);
        } else {
            assert(ids.push(id)[a] == ids[a]);
        }
    }
}

/// A key one past the maximum is fresh, and appending it keeps the column
/// healthy.
pub proof fn lemma_push_fresh_id(ids: Seq<i32>, id: i32)
    requires
        ids_ok(ids),
        id == max_key(ids) + 1,
        id < i32::MAX,
    ensures
        ids_ok(ids.push(id)),
        !ids.contains(id),
{
    lemma_max_key_bound(ids);
    lemma_push_new_id(ids, id);
}

/// Filtering a table keeps its key column healthy.
pub proof fn lemma_filter_ids_ok<T>(rows: Seq<T>, pred: spec_fn(T) -> bool, key: spec_fn(T) -> i32)
    requires
        ids_ok(rows.map_values(key)),
    ensures
        ids_ok(rows.filter(pred).map_values(key)),
{
    let ids = rows.map_values(key);
    assert forall|a: int, b: int| #![trigger rows[a], rows[b]]
        0 <= a < b < rows.len() implies key(rows[a]) != key(rows[b]) by {
        assert(ids[a] == key(rows[a]));
        assert(ids[b] == key(rows[b]));
    }
    lemma_filter_distinct(rows, pred, key);
    let f = rows.filter(pred);
    let fids = f.map_values(key);
    assert forall|a: int, b: int| 0 <= a < b < fids.len() implies fids[a] != fids[b] by {
        assert(key(f[a]) != key(f[b]));
    }
    assert forall|a: int| 0 <= a < fids.len() implies fids[a] < i32::MAX by {
        assert(rows.contains(f[a]));
        let c = choose|c: int| 0 <= c < rows.len() && rows[c] == f[a];
        assert(ids[c] < i32::MAX);
    }
}

/// A filter that keeps everything changes nothing.
pub proof fn lemma_filter_all_true<T>(s: Seq<T>, pred: spec_fn(T) -> bool)
    requires
        forall|i: int| 0 <= i < s.len() ==> pred(#[trigger] s[i]),
    ensures
        s.filter(pred) == s,
    decreases s.len(),
{
    reveal(Seq::filter);
    if s.len() > 0 {
        let rest = s.drop_last();
        assert forall|i: int| 0 <= i < rest.len() implies pred(#[trigger] rest[i]) by {
            assert(rest[i] == s[i]);
        }
        lemma_filter_all_true(rest, pred);
        assert(rest.push(s.last()) =~= s);
    }
}

/// A filter that rejects exactly one position removes exactly that row.
pub proof fn lemma_filter_single_out<T>(s: Seq<T>, pred: spec_fn(T) -> bool, i: int)
    requires
        0 <= i < s.len(),
        !pred(s[i]),
        forall|j: int| 0 <= j < s.len() && j != i ==> pred(#[trigger] s[j]),
    ensures
        s.filter(pred) == s.remove(i),
    decreases s.len(),
{
    reveal(Seq::filter);
    let rest = s.drop_last();
    if i == s.len() - 1 {
        assert forall|j: int| 0 <= j < rest.len() implies pred(#[trigger] rest[j]) by {
            assert(rest[j] == s[j]);
        }
        lemma_filter_all_true(rest, pred);
        assert(s.remove(i) =~= rest);
    } else {
        assert forall|j: int| 0 <= j < rest.len() && j != i implies pred(#[trigger] rest[j]) by {
            assert(rest[j] == s[j]);
        }
        assert(rest[i] == s[i]);
        lemma_filter_single_out(rest, pred, i);
        assert(pred(s.last()));
        assert(s.filter(pred) == rest.remove(i).push(s.last()));
        assert(rest.remove(i).push(s.last()) =~= s.remove(i));
    }
}

/// Removing an element and inserting another at the same place is a
/// point update.
pub proof fn lemma_remove_insert<T>(s: Seq<T>, i: int, x: T)
    requires
        0 <= i < s.len(),
    ensures
        s.remove(i).insert(i, x) == s.update(i, x),
{
    assert(s.remove(i).insert(i, x) =~= s.update(i, x));
}

/// The whole store.
pub struct Store {
    pub users: Vec<User>,
    pub permissions: Vec<Permission>,
    pub preferences: Vec<Preference>,
    pub products: Vec<Product>,
    pub categories: Vec<Category>,
    pub suppliers: Vec<Supplier>,
    pub brands: Vec<Brand>,
    pub pending_orders: Vec<PendingOrder>,
    pub received_orders: Vec<ReceivedOrder>,
}

/// The account tables belong together: ids are healthy and every user has
/// exactly one permission row and one preference row, with no orphans.
pub open spec fn accounts_ok(
    users: Seq<User>,
    permissions: Seq<Permission>,
    preferences: Seq<Preference>,
) -> bool {
    &&& ids_ok(user_ids(users))
    &&& ids_ok(permission_uids(permissions))
    &&& ids_ok(preference_uids(preferences))
    &&& forall|i: int|
        0 <= i < users.len() ==> permission_uids(permissions).contains((#[trigger] users[i]).id)
    &&& forall|i: int|
        0 <= i < users.len() ==> preference_uids(preferences).contains((#[trigger] users[i]).id)
    &&& forall|i: int|
        0 <= i < permissions.len() ==> user_ids(users).contains((#[trigger] permissions[i]).user_id)
    &&& forall|i: int|
        0 <= i < preferences.len() ==> user_ids(users).contains((#[trigger] preferences[i]).user_id)
}

impl Store {
    /// Well-formedness: what every operation preserves.
    pub open spec fn wf(self) -> bool {
        &&& accounts_ok(self.users@, self.permissions@, self.preferences@)
        &&& ids_ok(product_ids(self.products@))
        &&& ids_ok(category_ids(self.categories@))
        &&& ids_ok(supplier_ids(self.suppliers@))
        &&& ids_ok(brand_ids(self.brands@))
        &&& ids_ok(pending_ids(self.pending_orders@))
        &&& ids_ok(received_ids(self.received_orders@))
    }

    /// A user row with this id exists.
    pub open spec fn has_user(self, id: i32) -> bool {
        user_ids(self.users@).contains(id)
    }

    /// A permission row for this user exists.
    pub open spec fn has_permission(self, user_id: i32) -> bool {
        permission_uids(self.permissions@).contains(user_id)
    }

    /// A preference row for this user exists.
    pub open spec fn has_preference(self, user_id: i32) -> bool {
        preference_uids(self.preferences@).contains(user_id)
    }

    /// A product row with this id exists.
    pub open spec fn has_product(self, id: i32) -> bool {
        product_ids(self.products@).contains(id)
    }

    /// A category row with this id exists.
    pub open spec fn has_category(self, id: i32) -> bool {
        category_ids(self.categories@).contains(id)
    }

    /// A supplier row with this id exists.
    pub open spec fn has_supplier(self, id: i32) -> bool {
        supplier_ids(self.suppliers@).contains(id)
    }

    /// A brand row with this id exists.
    pub open spec fn has_brand(self, id: i32) -> bool {
        brand_ids(self.brands@).contains(id)
    }

    /// A pending-order row with this id exists.
    pub open spec fn has_pending(self, id: i32) -> bool {
        pending_ids(self.pending_orders@).contains(id)
    }

    /// A received-order row with this id exists.
    pub open spec fn has_received(self, id: i32) -> bool {
        received_ids(self.received_orders@).contains(id)
    }

    /// Some user row carries this login name.
    pub open spec fn has_user_named(self, name: Seq<char>) -> bool {
        exists|j: int| 0 <= j < self.users@.len() && (#[trigger] self.users@[j]).name@ == name
    }

    /// Index of the user row with this id, if any.
    pub(crate) fn find_user(&self, id: i32) -> (r: Option<usize>)
        ensures
            match r {
                Some(i) => i < self.users@.len() && self.users@[i as int].id == id
                    && self.has_user(id),
                None => !self.has_user(id),
            },
    {
        let mut k: usize = 0;
        while k < self.users.len()
            invariant
                k <= self.users@.len(),
                forall|j: int| 0 <= j < k ==> (#[trigger] self.users@[j]).id != id,
            decreases self.users@.len() - k,
        {
            if self.users[k].id == id {
                proof {
                    assert(user_ids(self.users@)[k as int] == id);
                }
                return Some(k);
            }
            k += 1;
        }
        proof {
            assert forall|j: int| 0 <= j < user_ids(self.users@).len()
                implies user_ids(self.users@)[j] != id by {
                assert(self.users@[j].id != id);
            }
        }
        None
    }

    /// Index of the first user row with this login name, if any.
    pub(crate) fn find_user_named(&self, name: &str) -> (r: Option<usize>)
        ensures
            match r {
                Some(i) => i < self.users@.len() && self.users@[i as int].name@ == name@
                    && (forall|j: int| 0 <= j < i ==> (#[trigger] self.users@[j]).name@ != name@),
                None => !self.has_user_named(name@),
            },
    {
        let mut k: usize = 0;
        while k < self.users.len()
            invariant
                k <= self.users@.len(),
                forall|j: int| 0 <= j < k ==> (#[trigger] self.users@[j]).name@ != name@,
            decreases self.users@.len() - k,
        {
            if crate::text::str_eq(self.users[k].name.as_str(), name) {
                return Some(k);
            }
            k += 1;
        }
        None
    }

    /// Index of the permission row for this user, if any.
    pub(crate) fn find_permission(&self, user_id: i32) -> (r: Option<usize>)
        ensures
            match r {
                Some(i) => i < self.permissions@.len()
                    && self.permissions@[i as int].user_id == user_id
                    && self.has_permission(user_id),
                None => !self.has_permission(user_id),
            },
    {
        let mut k: usize = 0;
        while k < self.permissions.len()
            invariant
                k <= self.permissions@.len(),
                forall|j: int| 0 <= j < k ==> (#[trigger] self.permissions@[j]).user_id != user_id,
            decreases self.permissions@.len() - k,
        {
            if self.permissions[k].user_id == user_id {
                proof {
                    assert(permission_uids(self.permissions@)[k as int] == user_id);
                }
                return Some(k);
            }
            k += 1;
        }
        proof {
            assert forall|j: int| 0 <= j < permission_uids(self.permissions@).len()
                implies permission_uids(self.permissions@)[j] != user_id by {
                assert(self.permissions@[j].user_id != user_id);
            }
        }
        None
    }

    /// Index of the preference row for this user, if any.
    pub(crate) fn find_preference(&self, user_id: i32) -> (r: Option<usize>)
        ensures
            match r {
                Some(i) => i < self.preferences@.len()
                    && self.preferences@[i as int].user_id == user_id
                    && self.has_preference(user_id),
                None => !self.has_preference(user_id),
            },
    {
        let mut k: usize = 0;
        while k < self.preferences.len()
            invariant
                k <= self.preferences@.len(),
                forall|j: int| 0 <= j < k ==> (#[trigger] self.preferences@[j]).user_id != user_id,
            decreases self.preferences@.len() - k,
        {
            if self.preferences[k].user_id == user_id {
                proof {
                    assert(preference_uids(self.preferences@)[k as int] == user_id);
                }
                return Some(k);
            }
            k += 1;
        }
        proof {
            assert forall|j: int| 0 <= j < preference_uids(self.preferences@).len()
                implies preference_uids(self.preferences@)[j] != user_id by {
                assert(self.preferences@[j].user_id != user_id);
            }
        }
        None
    }

    /// Index of the product row with this id, if any.
    pub(crate) fn find_product(&self, id: i32) -> (r: Option<usize>)
        ensures
            match r {
                Some(i) => i < self.products@.len() && self.products@[i as int].id == id
                    && self.has_product(id),
                None => !self.has_product(id),
            },
    {
        let mut k: usize = 0;
        while k < self.products.len()
            invariant
                k <= self.products@.len(),
                forall|j: int| 0 <= j < k ==> (#[trigger] self.products@[j]).id != id,
            decreases self.products@.len() - k,
        {
            if self.products[k].id == id {
                proof {
                    assert(product_ids(self.products@)[k as int] == id);
                }
                return Some(k);
            }
            k += 1;
        }
        proof {
            assert forall|j: int| 0 <= j < product_ids(self.products@).len()
                implies product_ids(self.products@)[j] != id by {
                assert(self.products@[j].id != id);
            }
        }
        None
    }

    /// Index of the category row with this id, if any.
    pub(crate) fn find_category(&self, id: i32) -> (r: Option<usize>)
        ensures
            match r {
                Some(i) => i < self.categories@.len() && self.categories@[i as int].id == id
                    && self.has_category(id),
                None => !self.has_category(id),
            },
    {
        let mut k: usize = 0;
        while k < self.categories.len()
            invariant
                k <= self.categories@.len(),
                forall|j: int| 0 <= j < k ==> (#[trigger] self.categories@[j]).id != id,
            decreases self.categories@.len() - k,
        {
            if self.categories[k].id == id {
                proof {
                    assert(category_ids(self.categories@)[k as int] == id);
                }
                return Some(k);
            }
            k += 1;
        }
        proof {
            assert forall|j: int| 0 <= j < category_ids(self.categories@).len()
                implies category_ids(self.categories@)[j] != id by {
                assert(self.categories@[j].id != id);
            }
        }
        None
    }

    /// Index of the supplier row with this id, if any.
    pub(crate) fn find_supplier(&self, id: i32) -> (r: Option<usize>)
        ensures
            match r {
                Some(i) => i < self.suppliers@.len() && self.suppliers@[i as int].id == id
                    && self.has_supplier(id),
                None => !self.has_supplier(id),
            },
    {
        let mut k: usize = 0;
        while k < self.suppliers.len()
            invariant
                k <= self.suppliers@.len(),
                forall|j: int| 0 <= j < k ==> (#[trigger] self.suppliers@[j]).id != id,
            decreases self.suppliers@.len() - k,
        {
            if self.suppliers[k].id == id {
                proof {
                    assert(supplier_ids(self.suppliers@)[k as int] == id);
                }
                return Some(k);
            }
            k += 1;
        }
        proof {
            assert forall|j: int| 0 <= j < supplier_ids(self.suppliers@).len()
                implies supplier_ids(self.suppliers@)[j] != id by {
                assert(self.suppliers@[j].id != id);
            }
        }
        None
    }

    /// Index of the brand row with this id, if any.
    pub(crate) fn find_brand(&self, id: i32) -> (r: Option<usize>)
        ensures
            match r {
                Some(i) => i < self.brands@.len() && self.brands@[i as int].id == id
                    && self.has_brand(id),
                None => !self.has_brand(id),
            },
    {
        let mut k: usize = 0;
        while k < self.brands.len()
            invariant
                k <= self.brands@.len(),
                forall|j: int| 0 <= j < k ==> (#[trigger] self.brands@[j]).id != id,
            decreases self.brands@.len() - k,
        {
            if self.brands[k].id == id {
                proof {
                    assert(brand_ids(self.brands@)[k as int] == id);
                }
                return Some(k);
            }
            k += 1;
        }
        proof {
            assert forall|j: int| 0 <= j < brand_ids(self.brands@).len()
                implies brand_ids(self.brands@)[j] != id by {
                assert(self.brands@[j].id != id);
            }
        }
        None
    }

    /// Index of the pending-order row with this id, if any.
    pub(crate) fn find_pending(&self, id: i32) -> (r: Option<usize>)
        ensures
            match r {
                Some(i) => i < self.pending_orders@.len()
                    && self.pending_orders@[i as int].id == id && self.has_pending(id),
                None => !self.has_pending(id),
            },
    {
        let mut k: usize = 0;
        while k < self.pending_orders.len()
            invariant
                k <= self.pending_orders@.len(),
                forall|j: int| 0 <= j < k ==> (#[trigger] self.pending_orders@[j]).id != id,
            decreases self.pending_orders@.len() - k,
        {
            if self.pending_orders[k].id == id {
                proof {
                    assert(pending_ids(self.pending_orders@)[k as int] == id);
                }
                return Some(k);
            }
            k += 1;
        }
        proof {
            assert forall|j: int| 0 <= j < pending_ids(self.pending_orders@).len()
                implies pending_ids(self.pending_orders@)[j] != id by {
                assert(self.pending_orders@[j].id != id);
            }
        }
        None
    }

    /// Index of the received-order row with this id, if any.
    pub(crate) fn find_received(&self, id: i32) -> (r: Option<usize>)
        ensures
            match r {
                Some(i) => i < self.received_orders@.len()
                    && self.received_orders@[i as int].id == id && self.has_received(id),
                None => !self.has_received(id),
            },
    {
        let mut k: usize = 0;
        while k < self.received_orders.len()
            invariant
                k <= self.received_orders@.len(),
                forall|j: int| 0 <= j < k ==> (#[trigger] self.received_orders@[j]).id != id,
            decreases self.received_orders@.len() - k,
        {
            if self.received_orders[k].id == id {
                proof {
                    assert(received_ids(self.received_orders@)[k as int] == id);
                }
                return Some(k);
            }
            k += 1;
        }
        proof {
            assert forall|j: int| 0 <= j < received_ids(self.received_orders@).len()
                implies received_ids(self.received_orders@)[j] != id by {
                assert(self.received_orders@[j].id != id);
            }
        }
        None
    }

    /// Next primary key for the user table.
    pub fn next_user_id(&self) -> (r: i32)
        requires
            keys_small(user_ids(self.users@)),
        ensures
            r == max_key(user_ids(self.users@)) + 1,
    {
        let mut ids: Vec<i32> = Vec::new();
        let mut k: usize = 0;
        while k < self.users.len()
            invariant
                k <= self.users@.len(),
                ids@.len() == k,
                forall|j: int| 0 <= j < k ==> ids@[j] == (#[trigger] self.users@[j]).id,
            decreases self.users@.len() - k,
        {
            ids.push(self.users[k].id);
            k += 1;
        }
        proof {
            assert(ids@ =~= user_ids(self.users@));
        }
        next_id(&ids)
    }

    /// Next primary key for the product table.
    pub fn next_product_id(&self) -> (r: i32)
        requires
            keys_small(product_ids(self.products@)),
        ensures
            r == max_key(product_ids(self.products@)) + 1,
    {
        let mut ids: Vec<i32> = Vec::new();
        let mut k: usize = 0;
        while k < self.products.len()
            invariant
                k <= self.products@.len(),
                ids@.len() == k,
                forall|j: int| 0 <= j < k ==> ids@[j] == (#[trigger] self.products@[j]).id,
            decreases self.products@.len() - k,
        {
            ids.push(self.products[k].id);
            k += 1;
        }
        proof {
            assert(ids@ =~= product_ids(self.products@));
        }
        next_id(&ids)
    }

    /// Next primary key for the category table.
    pub fn next_category_id(&self) -> (r: i32)
        requires
            keys_small(category_ids(self.categories@)),
        ensures
            r == max_key(category_ids(self.categories@)) + 1,
    {
        let mut ids: Vec<i32> = Vec::new();
        let mut k: usize = 0;
        while k < self.categories.len()
            invariant
                k <= self.categories@.len(),
                ids@.len() == k,
                forall|j: int| 0 <= j < k ==> ids@[j] == (#[trigger] self.categories@[j]).id,
            decreases self.categories@.len() - k,
        {
            ids.push(self.categories[k].id);
            k += 1;
        }
        proof {
            assert(ids@ =~= category_ids(self.categories@));
        }
        next_id(&ids)
    }

    /// Next primary key for the supplier table.
    pub fn next_supplier_id(&self) -> (r: i32)
        requires
            keys_small(supplier_ids(self.suppliers@)),
        ensures
            r == max_key(supplier_ids(self.suppliers@)) + 1,
    {
        let mut ids: Vec<i32> = Vec::new();
        let mut k: usize = 0;
        while k < self.suppliers.len()
            invariant
                k <= self.suppliers@.len(),
                ids@.len() == k,
                forall|j: int| 0 <= j < k ==> ids@[j] == (#[trigger] self.suppliers@[j]).id,
            decreases self.suppliers@.len() - k,
        {
            ids.push(self.suppliers[k].id);
            k += 1;
        }
        proof {
            assert(ids@ =~= supplier_ids(self.suppliers@));
        }
        next_id(&ids)
    }

    /// Next primary key for the brand table.
    pub fn next_brand_id(&self) -> (r: i32)
        requires
            keys_small(brand_ids(self.brands@)),
        ensures
            r == max_key(brand_ids(self.brands@)) + 1,
    {
        let mut ids: Vec<i32> = Vec::new();
        let mut k: usize = 0;
        while k < self.brands.len()
            invariant
                k <= self.brands@.len(),
                ids@.len() == k,
                forall|j: int| 0 <= j < k ==> ids@[j] == (#[trigger] self.brands@[j]).id,
            decreases self.brands@.len() - k,
        {
            ids.push(self.brands[k].id);
            k += 1;
        }
        proof {
            assert(ids@ =~= brand_ids(self.brands@));
        }
        next_id(&ids)
    }

    /// Next primary key for the pending-order table.
    pub fn next_pending_id(&self) -> (r: i32)
        requires
            keys_small(pending_ids(self.pending_orders@)),
        ensures
            r == max_key(pending_ids(self.pending_orders@)) + 1,
    {
        let mut ids: Vec<i32> = Vec::new();
        let mut k: usize = 0;
        while k < self.pending_orders.len()
            invariant
                k <= self.pending_orders@.len(),
                ids@.len() == k,
                forall|j: int| 0 <= j < k ==> ids@[j] == (#[trigger] self.pending_orders@[j]).id,
            decreases self.pending_orders@.len() - k,
        {
            ids.push(self.pending_orders[k].id);
            k += 1;
        }
        proof {
            assert(ids@ =~= pending_ids(self.pending_orders@));
        }
        next_id(&ids)
    }

    /// Next primary key for the received-order table.
    pub fn next_received_id(&self) -> (r: i32)
        requires
            keys_small(received_ids(self.received_orders@)),
        ensures
            r == max_key(received_ids(self.received_orders@)) + 1,
    {
        let mut ids: Vec<i32> = Vec::new();
        let mut k: usize = 0;
        while k < self.received_orders.len()
            invariant
                k <= self.received_orders@.len(),
                ids@.len() == k,
                forall|j: int| 0 <= j < k ==> ids@[j] == (#[trigger] self.received_orders@[j]).id,
            decreases self.received_orders@.len() - k,
        {
            ids.push(self.received_orders[k].id);
            k += 1;
        }
        proof {
            assert(ids@ =~= received_ids(self.received_orders@));
        }
        next_id(&ids)
    }

    /// An empty store, trivially well formed.
    pub fn new() -> (s: Store)
        ensures
            s.wf(),
            s.users@.len() == 0,
            s.permissions@.len() == 0,
            s.preferences@.len() == 0,
            s.products@.len() == 0,
            s.categories@.len() == 0,
            s.suppliers@.len() == 0,
            s.brands@.len() == 0,
            s.pending_orders@.len() == 0,
            s.received_orders@.len() == 0,
    {
        Store {
            users: Vec::new(),
            permissions: Vec::new(),
            preferences: Vec::new(),
            products: Vec::new(),
            categories: Vec::new(),
            suppliers: Vec::new(),
            brands: Vec::new(),
            pending_orders: Vec::new(),
            received_orders: Vec::new(),
        }
    }
}

} // verus!
