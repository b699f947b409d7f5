//! The request-level operations: each one loads the acting user's
//! permission row, answers the capability question, and only then touches
//! the data. A missing permission row is a fault (not an all-denied
//! default), and a false flag is reported as denial, distinct from any
//! other outcome.

use vstd::prelude::*;
use vstd::math::min;
use crate::credentials::{digest_matches, digest_wf, make_digest, peppered};
use crate::entities::{
    Brand, Capability, Category, PendingOrder, Permission, Preference, Product, ReceivedOrder,
    Supplier, User, cap_flag,
};
use crate::error::Error;
use crate::ids::{lemma_max_key_bound, max_key};
use crate::assoc::{attach_ids, count_id, repeated};
use crate::orders::{
    PendingOrderBuilder, lemma_pending_for, lemma_received_for, pending_for, received_for,
};
use crate::owners::SupplierBuilder;
use crate::products::{ProductBuilder, builder_refs_ok};
use crate::store::{Store, pending_ids, product_ids, received_ids, supplier_ids, user_ids};
use crate::users::{insert_account, permission_for, lemma_permission_for};

verus! {

/// Whether `user_id` holds the capability `cap`: the one boolean flag of
/// its permission row, with no hierarchy between flags.
pub fn authorize(store: &Store, user_id: i32, cap: Capability) -> (r: Result<bool, Error>)
    requires
        store.wf(),
    ensures
        match r {
            Ok(b) => store.has_permission(user_id) && b == cap_flag(
                permission_for(*store, user_id),
                cap,
            ),
            Err(e) => e == Error::NotFound && !store.has_permission(user_id),
        },
{
    match store.find_permission(user_id) {
        Some(i) => {
            let p = store.permissions[i];
            proof {
                lemma_permission_for(*store, user_id, i as int);
            }
            Ok(p.grants(cap))
        },
        None => Err(Error::NotFound),
    }
}

/// One page of pending orders, gated on `view_pending`.
pub fn list_pending_orders(store: &Store, user_id: i32, limit: i64, offset: i64) -> (r: Result<
    Vec<PendingOrder>,
    Error,
>)
    requires
        store.wf(),
        0 <= limit,
        0 <= offset,
    ensures
        match r {
            Ok(v) => {
                &&& store.has_permission(user_id)
                &&& cap_flag(permission_for(*store, user_id), Capability::ViewPending)
                &&& v@ == store.pending_orders@.subrange(
                    min(offset as int, store.pending_orders@.len() as int),
                    min(offset as int, store.pending_orders@.len() as int) + min(
                        limit as int,
                        store.pending_orders@.len() - min(
                            offset as int,
                            store.pending_orders@.len() as int,
                        ),
                    ),
                )
            },
            Err(e) => match e {
                Error::NotFound => !store.has_permission(user_id),
                Error::AuthorizationDenied => store.has_permission(user_id) && !cap_flag(
                    permission_for(*store, user_id),
                    Capability::ViewPending,
                ),
                _ => false,
            },
        },
{
    if authorize(store, user_id, Capability::ViewPending)? {
        Ok(PendingOrder::get_all(store, limit, offset))
    } else {
        Err(Error::AuthorizationDenied)
    }
}

/// One page of received orders, gated on `view_received`.
pub fn list_received_orders(store: &Store, user_id: i32, limit: i64, offset: i64) -> (r: Result<
    Vec<ReceivedOrder>,
    Error,
>)
    requires
        store.wf(),
        0 <= limit,
        0 <= offset,
    ensures
        match r {
            Ok(v) => {
                &&& store.has_permission(user_id)
                &&& cap_flag(permission_for(*store, user_id), Capability::ViewReceived)
                &&& v@ == store.received_orders@.subrange(
                    min(offset as int, store.received_orders@.len() as int),
                    min(offset as int, store.received_orders@.len() as int) + min(
                        limit as int,
                        store.received_orders@.len() - min(
                            offset as int,
                            store.received_orders@.len() as int,
                        ),
                    ),
                )
            },
            Err(e) => match e {
                Error::NotFound => !store.has_permission(user_id),
                Error::AuthorizationDenied => store.has_permission(user_id) && !cap_flag(
                    permission_for(*store, user_id),
                    Capability::ViewReceived,
                ),
                _ => false,
            },
        },
{
    if authorize(store, user_id, Capability::ViewReceived)? {
        Ok(ReceivedOrder::get_all(store, limit, offset))
    } else {
        Err(Error::AuthorizationDenied)
    }
}

/// One page of products, gated on `view_products`: denial returns no data
/// at all, never a partial page.
pub fn list_products(store: &Store, user_id: i32, limit: i64, offset: i64) -> (r: Result<
    Vec<Product>,
    Error,
>)
    requires
        store.wf(),
        0 <= limit,
        0 <= offset,
    ensures
        match r {
            Ok(v) => {
                &&& store.has_permission(user_id)
                &&& cap_flag(permission_for(*store, user_id), Capability::ViewProducts)
                &&& v@.len() == min(
                    limit as int,
                    store.products@.len() - min(offset as int, store.products@.len() as int),
                )
                &&& forall|j: int|
                    0 <= j < v@.len() ==> (#[trigger] v@[j])@ == store.products@[min(
                        offset as int,
                        store.products@.len() as int,
                    ) + j]@
            },
            Err(e) => match e {
                Error::NotFound => !store.has_permission(user_id),
                Error::AuthorizationDenied => store.has_permission(user_id) && !cap_flag(
                    permission_for(*store, user_id),
                    Capability::ViewProducts,
                ),
                _ => false,
            },
        },
{
    if authorize(store, user_id, Capability::ViewProducts)? {
        Ok(Product::get_all(store, limit, offset))
    } else {
        Err(Error::AuthorizationDenied)
    }
}

/// One page of categories, gated on `view_products`, which is the flag
/// the catalog read paths share.
#[verifier::loop_isolation(false)]
pub fn list_categories(store: &Store, user_id: i32, limit: i64, offset: i64) -> (r: Result<
    Vec<Category>,
    Error,
>)
    requires
        store.wf(),
        0 <= limit,
        0 <= offset,
    ensures
        match r {
            Ok(v) => {
                &&& store.has_permission(user_id)
                &&& cap_flag(permission_for(*store, user_id), Capability::ViewProducts)
                &&& v@.len() == min(
                    limit as int,
                    store.categories@.len() - min(offset as int, store.categories@.len() as int),
                )
                &&& forall|j: int|
                    0 <= j < v@.len() ==> (#[trigger] v@[j])@ == store.categories@[min(
                        offset as int,
                        store.categories@.len() as int,
                    ) + j]@
            },
            Err(e) => match e {
                Error::NotFound => !store.has_permission(user_id),
                Error::AuthorizationDenied => store.has_permission(user_id) && !cap_flag(
                    permission_for(*store, user_id),
                    Capability::ViewProducts,
                ),
                _ => false,
            },
        },
{
    if authorize(store, user_id, Capability::ViewProducts)? {
        let len = store.categories.len();
        let start: usize = if offset as u64 >= len as u64 {
            len
        } else {
            offset as usize
        };
        let remaining = len - start;
        let take: usize = if limit as u64 >= remaining as u64 {
            remaining
        } else {
            limit as usize
        };
        let mut v: Vec<Category> = Vec::new();
        let mut k: usize = 0;
        while k < take
            invariant
                k <= take,
                start + take <= len,
                v@.len() == k,
                forall|j: int|
                    0 <= j < k ==> (#[trigger] v@[j])@ == store.categories@[start + j]@,
            decreases take - k,
        {
            v.push(store.categories[start + k].clone());
            k += 1;
        }
        Ok(v)
    } else {
        Err(Error::AuthorizationDenied)
    }
}

/// One page of suppliers, gated on `view_suppliers`.
#[verifier::loop_isolation(false)]
pub fn list_suppliers(store: &Store, user_id: i32, limit: i64, offset: i64) -> (r: Result<
    Vec<Supplier>,
    Error,
>)
    requires
        store.wf(),
        0 <= limit,
        0 <= offset,
    ensures
        match r {
            Ok(v) => {
                &&& store.has_permission(user_id)
                &&& cap_flag(permission_for(*store, user_id), Capability::ViewSuppliers)
                &&& v@.len() == min(
                    limit as int,
                    store.suppliers@.len() - min(offset as int, store.suppliers@.len() as int),
                )
                &&& forall|j: int|
                    0 <= j < v@.len() ==> (#[trigger] v@[j])@ == store.suppliers@[min(
                        offset as int,
                        store.suppliers@.len() as int,
                    ) + j]@
            },
            Err(e) => match e {
                Error::NotFound => !store.has_permission(user_id),
                Error::AuthorizationDenied => store.has_permission(user_id) && !cap_flag(
                    permission_for(*store, user_id),
                    Capability::ViewSuppliers,
                ),
                _ => false,
            },
        },
{
    if authorize(store, user_id, Capability::ViewSuppliers)? {
        let len = store.suppliers.len();
        let start: usize = if offset as u64 >= len as u64 {
            len
        } else {
            offset as usize
        };
        let remaining = len - start;
        let take: usize = if limit as u64 >= remaining as u64 {
            remaining
        } else {
            limit as usize
        };
        let mut v: Vec<Supplier> = Vec::new();
        let mut k: usize = 0;
        while k < take
            invariant
                k <= take,
                start + take <= len,
                v@.len() == k,
                forall|j: int|
                    0 <= j < k ==> (#[trigger] v@[j])@ == store.suppliers@[start + j]@,
            decreases take - k,
        {
            v.push(store.suppliers[start + k].clone());
            k += 1;
        }
        Ok(v)
    } else {
        Err(Error::AuthorizationDenied)
    }
}

/// One page of brands. The acting user must still exist in the permission
/// table, but no flag gates this listing.
#[verifier::loop_isolation(false)]
pub fn list_brands(store: &Store, user_id: i32, limit: i64, offset: i64) -> (r: Result<
    Vec<Brand>,
    Error,
>)
    requires
        store.wf(),
        0 <= limit,
        0 <= offset,
    ensures
        match r {
            Ok(v) => {
                &&& store.has_permission(user_id)
                &&& v@.len() == min(
                    limit as int,
                    store.brands@.len() - min(offset as int, store.brands@.len() as int),
                )
                &&& forall|j: int|
                    0 <= j < v@.len() ==> (#[trigger] v@[j])@ == store.brands@[min(
                        offset as int,
                        store.brands@.len() as int,
                    ) + j]@
            },
            Err(e) => e == Error::NotFound && !store.has_permission(user_id),
        },
{
    let _ = authorize(store, user_id, Capability::ViewProducts)?;
    let len = store.brands.len();
    let start: usize = if offset as u64 >= len as u64 {
        len
    } else {
        offset as usize
    };
    let remaining = len - start;
    let take: usize = if limit as u64 >= remaining as u64 {
        remaining
    } else {
        limit as usize
    };
    let mut v: Vec<Brand> = Vec::new();
    let mut k: usize = 0;
    while k < take
        invariant
            k <= take,
            start + take <= len,
            v@.len() == k,
            forall|j: int| 0 <= j < k ==> (#[trigger] v@[j])@ == store.brands@[start + j]@,
        decreases take - k,
    {
        v.push(store.brands[start + k].clone());
        k += 1;
    }
    Ok(v)
}

/// Supplier names and ids, gated on `view_suppliers`.
pub fn supplier_names(store: &Store, user_id: i32) -> (r: Result<Vec<(String, i32)>, Error>)
    requires
        store.wf(),
    ensures
        match r {
            Ok(v) => {
                &&& store.has_permission(user_id)
                &&& cap_flag(permission_for(*store, user_id), Capability::ViewSuppliers)
                &&& v@.len() == store.suppliers@.len()
                &&& forall|j: int|
                    0 <= j < v@.len() ==> (#[trigger] v@[j]).0@ == store.suppliers@[j].name@
                        && v@[j].1 == store.suppliers@[j].id
            },
            Err(e) => match e {
                Error::NotFound => !store.has_permission(user_id),
                Error::AuthorizationDenied => store.has_permission(user_id) && !cap_flag(
                    permission_for(*store, user_id),
                    Capability::ViewSuppliers,
                ),
                _ => false,
            },
        },
{
    if authorize(store, user_id, Capability::ViewSuppliers)? {
        Ok(Supplier::get_names(store))
    } else {
        Err(Error::AuthorizationDenied)
    }
}

/// Brand names and ids, gated on `view_products`.
pub fn brand_names(store: &Store, user_id: i32) -> (r: Result<Vec<(String, i32)>, Error>)
    requires
        store.wf(),
    ensures
        match r {
            Ok(v) => {
                &&& store.has_permission(user_id)
                &&& cap_flag(permission_for(*store, user_id), Capability::ViewProducts)
                &&& v@.len() == store.brands@.len()
                &&& forall|j: int|
                    0 <= j < v@.len() ==> (#[trigger] v@[j]).0@ == store.brands@[j].name@
                        && v@[j].1 == store.brands@[j].id
            },
            Err(e) => match e {
                Error::NotFound => !store.has_permission(user_id),
                Error::AuthorizationDenied => store.has_permission(user_id) && !cap_flag(
                    permission_for(*store, user_id),
                    Capability::ViewProducts,
                ),
                _ => false,
            },
        },
{
    if authorize(store, user_id, Capability::ViewProducts)? {
        Ok(Brand::get_names(store))
    } else {
        Err(Error::AuthorizationDenied)
    }
}

/// Product names, upcs and ids, gated on `view_products`.
pub fn product_names(store: &Store, user_id: i32) -> (r: Result<Vec<(String, String, i32)>, Error>)
    requires
        store.wf(),
    ensures
        match r {
            Ok(v) => {
                &&& store.has_permission(user_id)
                &&& cap_flag(permission_for(*store, user_id), Capability::ViewProducts)
                &&& v@.len() == store.products@.len()
                &&& forall|j: int|
                    0 <= j < v@.len() ==> (#[trigger] v@[j]).0@ == store.products@[j].name@
                        && v@[j].1@ == store.products@[j].upc@ && v@[j].2
                        == store.products@[j].id
            },
            Err(e) => match e {
                Error::NotFound => !store.has_permission(user_id),
                Error::AuthorizationDenied => store.has_permission(user_id) && !cap_flag(
                    permission_for(*store, user_id),
                    Capability::ViewProducts,
                ),
                _ => false,
            },
        },
{
    if authorize(store, user_id, Capability::ViewProducts)? {
        Ok(Product::get_names(store))
    } else {
        Err(Error::AuthorizationDenied)
    }
}

/// Category names and ids, gated on `view_products`.
pub fn category_names(store: &Store, user_id: i32) -> (r: Result<Vec<(String, i32)>, Error>)
    requires
        store.wf(),
    ensures
        match r {
            Ok(v) => {
                &&& store.has_permission(user_id)
                &&& cap_flag(permission_for(*store, user_id), Capability::ViewProducts)
                &&& v@.len() == store.categories@.len()
                &&& forall|j: int|
                    0 <= j < v@.len() ==> (#[trigger] v@[j]).0@ == store.categories@[j].name@
                        && v@[j].1 == store.categories@[j].id
            },
            Err(e) => match e {
                Error::NotFound => !store.has_permission(user_id),
                Error::AuthorizationDenied => store.has_permission(user_id) && !cap_flag(
                    permission_for(*store, user_id),
                    Capability::ViewProducts,
                ),
                _ => false,
            },
        },
{
    if authorize(store, user_id, Capability::ViewProducts)? {
        Ok(Category::get_names(store))
    } else {
        Err(Error::AuthorizationDenied)
    }
}

/// The permission row of an arbitrary user, looked up by user id.
pub fn user_permissions(store: &Store, user_id: i32) -> (r: Result<Permission, Error>)
    requires
        store.wf(),
    ensures
        match r {
            Ok(p) => store.has_user(user_id) && store.has_permission(user_id) && p
                == permission_for(*store, user_id),
            Err(e) => e == Error::NotFound && (!store.has_user(user_id) || !store.has_permission(
                user_id,
            )),
        },
{
    let u = User::from_id(store, user_id)?;
    u.get_permissions(store)
}

/// Provision the very first account: only when the user table is empty,
/// under the reserved id 0, with every capability granted. Once any user
/// exists the operation is rejected as a conflict.
pub fn initialize(store: &mut Store, username: String, password: &str, pepper: &str) -> (r: Result<
    (),
    Error,
>)
    requires
        old(store).wf(),
    ensures
        final(store).wf(),
        match r {
            Ok(()) => {
                &&& old(store).users@.len() == 0
                &&& final(store).users@.len() == 1
                &&& final(store).users@[0].id == 0
                &&& final(store).users@[0].name == username
                &&& final(store).users@[0].email@ == Seq::<char>::empty()
                &&& digest_wf(final(store).users@[0].password@)
                &&& digest_matches(
                    peppered(password@, pepper@),
                    final(store).users@[0].password@,
                )
                &&& final(store).permissions@ == old(store).permissions@.push(
                    (Permission {
                        user_id: 0,
                        admin: true,
                        view_pending: true,
                        view_received: true,
                        edit_pending: true,
                        create_orders: true,
                        edit_received: true,
                        remove_orders: true,
                        edit_products: true,
                        view_products: true,
                        view_suppliers: true,
                    }),
                )
                &&& final(store).preferences@ == old(store).preferences@.push(
                    (Preference { user_id: 0 }),
                )
            },
            Err(e) => {
                &&& *final(store) == *old(store)
                &&& match e {
                    Error::Conflict => old(store).users@.len() > 0,
                    Error::Fault => old(store).users@.len() == 0,
                    _ => false,
                }
            },
        },
        final(store).products == old(store).products,
        final(store).categories == old(store).categories,
        final(store).suppliers == old(store).suppliers,
        final(store).brands == old(store).brands,
        final(store).pending_orders == old(store).pending_orders,
        final(store).received_orders == old(store).received_orders,
{
    if store.users.len() != 0 {
        return Err(Error::Conflict);
    }
    let digest = make_digest(password, pepper)?;
    let row = User { id: 0, email: String::new(), name: username, password: digest };
    let perms = Permission {
        user_id: 0,
        admin: true,
        view_pending: true,
        view_received: true,
        edit_pending: true,
        create_orders: true,
        edit_received: true,
        remove_orders: true,
        edit_products: true,
        view_products: true,
        view_suppliers: true,
    };
    let pref = Preference { user_id: 0 };
    insert_account(store, row, perms, pref);
    Ok(())
}

/// Create a further account: the acting user must hold `admin`; the new
/// user gets the next free id and no capabilities at all.
pub fn signup(
    store: &mut Store,
    acting_user_id: i32,
    username: String,
    password: &str,
    pepper: &str,
) -> (r: Result<i32, Error>)
    requires
        old(store).wf(),
        max_key(user_ids(old(store).users@)) + 1 < i32::MAX,
    ensures
        final(store).wf(),
        match r {
            Ok(new_id) => {
                &&& old(store).has_permission(acting_user_id)
                &&& cap_flag(permission_for(*old(store), acting_user_id), Capability::Admin)
                &&& new_id == max_key(user_ids(old(store).users@)) + 1
                &&& !old(store).has_user(new_id)
                &&& final(store).users@.len() == old(store).users@.len() + 1
                &&& forall|j: int|
                    0 <= j < old(store).users@.len() ==> final(store).users@[j] == old(
                        store,
                    ).users@[j]
                &&& final(store).users@.last().id == new_id
                &&& final(store).users@.last().name == username
                &&& final(store).users@.last().email@ == Seq::<char>::empty()
                &&& digest_wf(final(store).users@.last().password@)
                &&& digest_matches(
                    peppered(password@, pepper@),
                    final(store).users@.last().password@,
                )
                &&& final(store).permissions@ == old(store).permissions@.push(
                    (Permission {
                        user_id: new_id,
                        admin: false,
                        view_pending: false,
                        view_received: false,
                        edit_pending: false,
                        create_orders: false,
                        edit_received: false,
                        remove_orders: false,
                        edit_products: false,
                        view_products: false,
                        view_suppliers: false,
                    }),
                )
                &&& final(store).preferences@ == old(store).preferences@.push(
                    (Preference { user_id: new_id }),
                )
            },
            Err(e) => {
                &&& *final(store) == *old(store)
                &&& match e {
                    Error::NotFound => !old(store).has_permission(acting_user_id),
                    Error::AuthorizationDenied => old(store).has_permission(acting_user_id)
                        && !cap_flag(
                        permission_for(*old(store), acting_user_id),
                        Capability::Admin,
                    ),
                    Error::Fault => old(store).has_permission(acting_user_id) && cap_flag(
                        permission_for(*old(store), acting_user_id),
                        Capability::Admin,
                    ),
                    _ => false,
                }
            },
        },
        final(store).products == old(store).products,
        final(store).categories == old(store).categories,
        final(store).suppliers == old(store).suppliers,
        final(store).brands == old(store).brands,
        final(store).pending_orders == old(store).pending_orders,
        final(store).received_orders == old(store).received_orders,
{
    if !authorize(store, acting_user_id, Capability::Admin)? {
        return Err(Error::AuthorizationDenied);
    }
    let digest = make_digest(password, pepper)?;
    let new_id = store.next_user_id();
    proof {
        lemma_max_key_bound(user_ids(store.users@));
    }
    let row = User { id: new_id, email: String::new(), name: username, password: digest };
    let perms = Permission {
        user_id: new_id,
        admin: false,
        view_pending: false,
        view_received: false,
        edit_pending: false,
        create_orders: false,
        edit_received: false,
        remove_orders: false,
        edit_products: false,
        view_products: false,
        view_suppliers: false,
    };
    let pref = Preference { user_id: new_id };
    insert_account(store, row, perms, pref);
    Ok(new_id)
}

/// Place a new pending order, gated on `create_orders`.
pub fn new_pending_order(store: &mut Store, user_id: i32, product_id: i32, amount: i64) -> (r:
    Result<i32, Error>)
    requires
        old(store).wf(),
        max_key(pending_ids(old(store).pending_orders@)) + 1 < i32::MAX,
    ensures
        final(store).wf(),
        match r {
            Ok(oid) => {
                &&& old(store).has_permission(user_id)
                &&& cap_flag(permission_for(*old(store), user_id), Capability::CreateOrders)
                &&& oid == max_key(pending_ids(old(store).pending_orders@)) + 1
                &&& !old(store).has_pending(oid)
                &&& final(store).pending_orders@ == old(store).pending_orders@.push(
                    (PendingOrder { id: oid, product_id, amount }),
                )
            },
            Err(e) => {
                &&& *final(store) == *old(store)
                &&& match e {
                    Error::NotFound => !old(store).has_permission(user_id),
                    Error::AuthorizationDenied => old(store).has_permission(user_id) && !cap_flag(
                        permission_for(*old(store), user_id),
                        Capability::CreateOrders,
                    ),
                    _ => false,
                }
            },
        },
        final(store).users == old(store).users,
        final(store).permissions == old(store).permissions,
        final(store).preferences == old(store).preferences,
        final(store).products == old(store).products,
        final(store).categories == old(store).categories,
        final(store).suppliers == old(store).suppliers,
        final(store).brands == old(store).brands,
        final(store).received_orders == old(store).received_orders,
{
    if !authorize(store, user_id, Capability::CreateOrders)? {
        return Err(Error::AuthorizationDenied);
    }
    Ok(PendingOrderBuilder::new(product_id, amount).build(store))
}

/// Move a pending order to the received table, gated on `edit_received`:
/// the receipt gets a fresh id in the received table, carries the pending
/// order's product and ordered quantity as `gross_amount`, records the
/// supplied date and quantities, and the pending row is deleted.
pub fn mark_order_as_received(
    store: &mut Store,
    user_id: i32,
    order_id: i32,
    date: i64,
    actually_received: i64,
    damaged: i64,
) -> (r: Result<i32, Error>)
    requires
        old(store).wf(),
        max_key(received_ids(old(store).received_orders@)) + 1 < i32::MAX,
    ensures
        final(store).wf(),
        match r {
            Ok(rid) => {
                &&& old(store).has_permission(user_id)
                &&& cap_flag(permission_for(*old(store), user_id), Capability::EditReceived)
                &&& old(store).has_pending(order_id)
                &&& rid == max_key(received_ids(old(store).received_orders@)) + 1
                &&& !old(store).has_received(rid)
                &&& final(store).received_orders@ == old(store).received_orders@.push(
                    (ReceivedOrder {
                        id: rid as i32,
                        received: Some(date),
                        product_id: pending_for(*old(store), order_id).product_id,
                        gross_amount: pending_for(*old(store), order_id).amount,
                        actually_received,
                        damaged,
                    }),
                )
                &&& exists|i: int|
                    0 <= i < old(store).pending_orders@.len() && (#[trigger] old(
                        store,
                    ).pending_orders@[i]).id == order_id && final(store).pending_orders@ == old(
                        store,
                    ).pending_orders@.remove(i)
                &&& !final(store).has_pending(order_id)
            },
            Err(e) => {
                &&& *final(store) == *old(store)
                &&& match e {
                    Error::NotFound => !old(store).has_permission(user_id) || (cap_flag(
                        permission_for(*old(store), user_id),
                        Capability::EditReceived,
                    ) && !old(store).has_pending(order_id)),
                    Error::AuthorizationDenied => old(store).has_permission(user_id) && !cap_flag(
                        permission_for(*old(store), user_id),
                        Capability::EditReceived,
                    ),
                    _ => false,
                }
            },
        },
        final(store).users == old(store).users,
        final(store).permissions == old(store).permissions,
        final(store).preferences == old(store).preferences,
        final(store).products == old(store).products,
        final(store).categories == old(store).categories,
        final(store).suppliers == old(store).suppliers,
        final(store).brands == old(store).brands,
{
    if !authorize(store, user_id, Capability::EditReceived)? {
        return Err(Error::AuthorizationDenied);
    }
    let pending_order = PendingOrder::get(store, order_id)?;
    proof {
        let i = choose|i: int|
            0 <= i < store.pending_orders@.len() && pending_order == (
            #[trigger] store.pending_orders@[i]);
        lemma_pending_for(*store, order_id, i);
    }
    let row = pending_order.mark_as_received(store, date, actually_received, damaged);
    Ok(row.id)
}

/// Move a received order back to the pending table, gated on
/// `edit_received`: a new pending order is placed for the originally
/// ordered quantity — the receipt date and the actually received and
/// damaged quantities are discarded — and the received row is deleted.
pub fn mark_order_as_pending(store: &mut Store, user_id: i32, order_id: i32) -> (r: Result<
    i32,
    Error,
>)
    requires
        old(store).wf(),
        max_key(pending_ids(old(store).pending_orders@)) + 1 < i32::MAX,
    ensures
        final(store).wf(),
        match r {
            Ok(pid) => {
                &&& old(store).has_permission(user_id)
                &&& cap_flag(permission_for(*old(store), user_id), Capability::EditReceived)
                &&& old(store).has_received(order_id)
                &&& pid == max_key(pending_ids(old(store).pending_orders@)) + 1
                &&& !old(store).has_pending(pid)
                &&& final(store).pending_orders@ == old(store).pending_orders@.push(
                    (PendingOrder {
                        id: pid as i32,
                        product_id: received_for(*old(store), order_id).product_id,
                        amount: received_for(*old(store), order_id).gross_amount,
                    }),
                )
                &&& exists|i: int|
                    0 <= i < old(store).received_orders@.len() && (#[trigger] old(
                        store,
                    ).received_orders@[i]).id == order_id && final(store).received_orders@ == old(
                        store,
                    ).received_orders@.remove(i)
                &&& !final(store).has_received(order_id)
            },
            Err(e) => {
                &&& *final(store) == *old(store)
                &&& match e {
                    Error::NotFound => !old(store).has_permission(user_id) || (cap_flag(
                        permission_for(*old(store), user_id),
                        Capability::EditReceived,
                    ) && !old(store).has_received(order_id)),
                    Error::AuthorizationDenied => old(store).has_permission(user_id) && !cap_flag(
                        permission_for(*old(store), user_id),
                        Capability::EditReceived,
                    ),
                    _ => false,
                }
            },
        },
        final(store).users == old(store).users,
        final(store).permissions == old(store).permissions,
        final(store).preferences == old(store).preferences,
        final(store).products == old(store).products,
        final(store).categories == old(store).categories,
        final(store).suppliers == old(store).suppliers,
        final(store).brands == old(store).brands,
{
    if !authorize(store, user_id, Capability::EditReceived)? {
        return Err(Error::AuthorizationDenied);
    }
    let received_order = ReceivedOrder::get(store, order_id)?;
    proof {
        let i = choose|i: int|
            0 <= i < store.received_orders@.len() && received_order == (
            #[trigger] store.received_orders@[i]);
        lemma_received_for(*store, order_id, i);
    }
    let pid = PendingOrderBuilder::new(
        received_order.product_id,
        received_order.gross_amount,
    ).build(store);
    ReceivedOrder::delete(store, received_order.id);
    Ok(pid)
}

/// Overwrite a pending order, gated on `edit_received`, which is the flag
/// this path shares with the receipt edits.
pub fn update_pending_order(store: &mut Store, user_id: i32, order: PendingOrder) -> (r: Result<
    (),
    Error,
>)
    requires
        old(store).wf(),
    ensures
        final(store).wf(),
        match r {
            Ok(()) => {
                &&& old(store).has_permission(user_id)
                &&& cap_flag(permission_for(*old(store), user_id), Capability::EditReceived)
                &&& final(store).pending_orders@.len() == old(store).pending_orders@.len()
                &&& forall|j: int|
                    0 <= j < old(store).pending_orders@.len() && (#[trigger] old(
                        store,
                    ).pending_orders@[j]).id != order.id ==> final(store).pending_orders@[j]
                        == old(store).pending_orders@[j]
                &&& forall|j: int|
                    0 <= j < old(store).pending_orders@.len() && (#[trigger] old(
                        store,
                    ).pending_orders@[j]).id == order.id ==> final(store).pending_orders@[j]
                        == order
            },
            Err(e) => {
                &&& *final(store) == *old(store)
                &&& match e {
                    Error::NotFound => !old(store).has_permission(user_id),
                    Error::AuthorizationDenied => old(store).has_permission(user_id) && !cap_flag(
                        permission_for(*old(store), user_id),
                        Capability::EditReceived,
                    ),
                    _ => false,
                }
            },
        },
        final(store).users == old(store).users,
        final(store).permissions == old(store).permissions,
        final(store).preferences == old(store).preferences,
        final(store).products == old(store).products,
        final(store).categories == old(store).categories,
        final(store).suppliers == old(store).suppliers,
        final(store).brands == old(store).brands,
        final(store).received_orders == old(store).received_orders,
{
    if !authorize(store, user_id, Capability::EditReceived)? {
        return Err(Error::AuthorizationDenied);
    }
    order.update(store);
    Ok(())
}

/// Overwrite a received order, gated on `edit_received`.
pub fn update_received_order(store: &mut Store, user_id: i32, order: ReceivedOrder) -> (r: Result<
    (),
    Error,
>)
    requires
        old(store).wf(),
    ensures
        final(store).wf(),
        match r {
            Ok(()) => {
                &&& old(store).has_permission(user_id)
                &&& cap_flag(permission_for(*old(store), user_id), Capability::EditReceived)
                &&& final(store).received_orders@.len() == old(store).received_orders@.len()
                &&& forall|j: int|
                    0 <= j < old(store).received_orders@.len() && (#[trigger] old(
                        store,
                    ).received_orders@[j]).id != order.id ==> final(store).received_orders@[j]
                        == old(store).received_orders@[j]
                &&& forall|j: int|
                    0 <= j < old(store).received_orders@.len() && (#[trigger] old(
                        store,
                    ).received_orders@[j]).id == order.id ==> final(store).received_orders@[j]
                        == order
            },
            Err(e) => {
                &&& *final(store) == *old(store)
                &&& match e {
                    Error::NotFound => !old(store).has_permission(user_id),
                    Error::AuthorizationDenied => old(store).has_permission(user_id) && !cap_flag(
                        permission_for(*old(store), user_id),
                        Capability::EditReceived,
                    ),
                    _ => false,
                }
            },
        },
        final(store).users == old(store).users,
        final(store).permissions == old(store).permissions,
        final(store).preferences == old(store).preferences,
        final(store).products == old(store).products,
        final(store).categories == old(store).categories,
        final(store).suppliers == old(store).suppliers,
        final(store).brands == old(store).brands,
        final(store).pending_orders == old(store).pending_orders,
{
    if !authorize(store, user_id, Capability::EditReceived)? {
        return Err(Error::AuthorizationDenied);
    }
    order.update(store);
    Ok(())
}

/// Create a product from an accumulated builder, gated on
/// `edit_products`: on success the new row and one link per named owner
/// are written exactly as the builder's commit promises.
pub fn new_product(store: &mut Store, user_id: i32, builder: ProductBuilder) -> (r: Result<
    i32,
    Error,
>)
    requires
        old(store).wf(),
        max_key(product_ids(old(store).products@)) + 1 < i32::MAX,
    ensures
        final(store).wf(),
        match r {
            Ok(pid) => {
                &&& old(store).has_permission(user_id)
                &&& cap_flag(permission_for(*old(store), user_id), Capability::EditProducts)
                &&& builder_refs_ok(
                    *old(store),
                    builder.brand,
                    builder.categories@,
                    builder.suppliers@,
                )
                &&& pid == max_key(product_ids(old(store).products@)) + 1
                &&& !old(store).has_product(pid)
                &&& final(store).products@.len() == old(store).products@.len() + 1
                &&& forall|j: int|
                    0 <= j < old(store).products@.len() ==> final(store).products@[j] == old(
                        store,
                    ).products@[j]
                &&& {
                    let p = final(store).products@.last();
                    &&& p.id == pid
                    &&& p.upc == builder.upc
                    &&& p.name == builder.name
                    &&& p.amount == 0
                    &&& p.sale_end is None
                    &&& p.sale_price is None
                }
                &&& final(store).brands@.len() == old(store).brands@.len()
                &&& forall|j: int|
                    0 <= j < old(store).brands@.len() ==> {
                        let n = #[trigger] final(store).brands@[j];
                        let o = old(store).brands@[j];
                        n.id == o.id && n.name == o.name && n.products@ == (
                        if builder.brand == Some(o.id) {
                            attach_ids(o.products@, pid)
                        } else {
                            o.products@
                        })
                    }
                &&& final(store).categories@.len() == old(store).categories@.len()
                &&& forall|j: int|
                    0 <= j < old(store).categories@.len() ==> {
                        let n = #[trigger] final(store).categories@[j];
                        let o = old(store).categories@[j];
                        n.id == o.id && n.name == o.name && n.products@ == o.products@ + repeated(
                            pid,
                            count_id(builder.categories@, o.id),
                        )
                    }
                &&& final(store).suppliers@.len() == old(store).suppliers@.len()
                &&& forall|j: int|
                    0 <= j < old(store).suppliers@.len() ==> {
                        let n = #[trigger] final(store).suppliers@[j];
                        let o = old(store).suppliers@[j];
                        n.id == o.id && n.name == o.name && n.phone_number == o.phone_number
                            && n.email == o.email && n.products@ == o.products@ + repeated(
                            pid,
                            count_id(builder.suppliers@, o.id),
                        )
                    }
                &&& final(store).pending_orders == old(store).pending_orders
                &&& final(store).received_orders == old(store).received_orders
            },
            Err(e) => {
                &&& *final(store) == *old(store)
                &&& match e {
                    Error::NotFound => !old(store).has_permission(user_id) || (cap_flag(
                        permission_for(*old(store), user_id),
                        Capability::EditProducts,
                    ) && !builder_refs_ok(
                        *old(store),
                        builder.brand,
                        builder.categories@,
                        builder.suppliers@,
                    )),
                    Error::AuthorizationDenied => old(store).has_permission(user_id) && !cap_flag(
                        permission_for(*old(store), user_id),
                        Capability::EditProducts,
                    ),
                    _ => false,
                }
            },
        },
        final(store).users == old(store).users,
        final(store).permissions == old(store).permissions,
        final(store).preferences == old(store).preferences,
{
    if !authorize(store, user_id, Capability::EditProducts)? {
        return Err(Error::AuthorizationDenied);
    }
    builder.build(store)
}

/// Create a supplier with optional contact details.
pub fn new_supplier(
    store: &mut Store,
    name: String,
    phone_number: Option<String>,
    email: Option<String>,
) -> (r: i32)
    requires
        old(store).wf(),
        max_key(supplier_ids(old(store).suppliers@)) + 1 < i32::MAX,
    ensures
        final(store).wf(),
        r == max_key(supplier_ids(old(store).suppliers@)) + 1,
        final(store).suppliers@.len() == old(store).suppliers@.len() + 1,
        forall|j: int|
            0 <= j < old(store).suppliers@.len() ==> final(store).suppliers@[j] == old(
                store,
            ).suppliers@[j],
        final(store).suppliers@.last().id == r,
        final(store).suppliers@.last().name == name,
        final(store).suppliers@.last().phone_number == phone_number,
        final(store).suppliers@.last().email == email,
        final(store).suppliers@.last().products@ == Seq::<Option<i32>>::empty(),
        final(store).users == old(store).users,
        final(store).permissions == old(store).permissions,
        final(store).preferences == old(store).preferences,
        final(store).products == old(store).products,
        final(store).categories == old(store).categories,
        final(store).brands == old(store).brands,
        final(store).pending_orders == old(store).pending_orders,
        final(store).received_orders == old(store).received_orders,
{
    let mut builder = SupplierBuilder::new(name);
    if let Some(number) = phone_number {
        builder = builder.with_phone_number(number);
    }
    if let Some(addr) = email {
        builder = builder.with_email(addr);
    }
    builder.build(store)
}

} // verus!
