//! Accounts and the capability gate: bootstrap, signup, login, per-flag
//! authorization, and the distinctness of the failure outcomes.

use inventory_core::access::{
    authorize, brand_names, category_names, initialize, list_brands, list_categories,
    list_pending_orders, list_products, list_received_orders, list_suppliers,
    mark_order_as_pending, mark_order_as_received, new_pending_order, new_product, new_supplier,
    product_names, signup, supplier_names, update_pending_order, update_received_order,
    user_permissions,
};
use inventory_core::entities::{Capability, PendingOrder, Permission, Preference, User};
use inventory_core::error::{Error, PoolError};
use inventory_core::orders::PendingOrderBuilder;
use inventory_core::products::ProductBuilder;
use inventory_core::store::Store;
use inventory_core::users::{PermissionsBuilder, UserBuilder};

const PEPPER: &str = "test-pepper";

fn bootstrapped() -> Store {
    let mut store = Store::new();
    initialize(&mut store, String::from("root"), "rootpw", PEPPER).unwrap();
    store
}

#[test]
fn initialize_provisions_the_reserved_account_once() {
    let mut store = Store::new();
    initialize(&mut store, String::from("root"), "rootpw", PEPPER).unwrap();
    assert_eq!(store.users.len(), 1);
    assert_eq!(store.users[0].id, 0);
    assert_eq!(store.users[0].name, "root");
    let perm = user_permissions(&store, 0).unwrap();
    assert!(perm.admin && perm.view_products && perm.view_suppliers);
    assert!(perm.view_pending && perm.view_received && perm.edit_pending);
    assert!(perm.create_orders && perm.edit_received && perm.remove_orders);
    assert!(perm.edit_products);
    // a second run is rejected as a conflict, and changes nothing
    let again = initialize(&mut store, String::from("other"), "pw", PEPPER);
    assert_eq!(again.unwrap_err(), Error::Conflict);
    assert_eq!(store.users.len(), 1);
}

#[test]
fn login_accepts_the_right_secret_and_denies_the_wrong_one() {
    let store = bootstrapped();
    let u = User::get(&store, "root", "rootpw", PEPPER).unwrap();
    assert_eq!(u.id, 0);
    let denied = User::get(&store, "root", "wrongpw", PEPPER);
    assert_eq!(denied.unwrap_err(), Error::AuthenticationDenied);
    // same secret under another pepper is a different credential
    let denied = User::get(&store, "root", "rootpw", "other-pepper");
    assert_eq!(denied.unwrap_err(), Error::AuthenticationDenied);
    let missing = User::get(&store, "nobody", "rootpw", PEPPER);
    assert_eq!(missing.unwrap_err(), Error::NotFound);
}

#[test]
fn malformed_stored_digest_is_a_fault_not_a_denial() {
    let mut store = Store::new();
    store.users.push(User {
        id: 1,
        name: String::from("broken"),
        email: String::new(),
        password: String::from("not a digest"),
    });
    store.permissions.push(Permission {
        user_id: 1,
        admin: false,
        view_pending: false,
        view_received: false,
        edit_pending: false,
        create_orders: false,
        edit_received: false,
        remove_orders: false,
        edit_products: false,
        view_products: false,
        view_suppliers: false,
    });
    store.preferences.push(Preference { user_id: 1 });
    let r = User::get(&store, "broken", "whatever", PEPPER);
    assert_eq!(r.unwrap_err(), Error::Fault);
}

#[test]
fn signup_requires_admin_and_grants_nothing() {
    let mut store = bootstrapped();
    let new_id = signup(&mut store, 0, String::from("clerk"), "clerkpw", PEPPER).unwrap();
    assert_eq!(new_id, 1);
    let perm = user_permissions(&store, new_id).unwrap();
    assert!(!perm.admin && !perm.view_products && !perm.view_suppliers);
    assert!(!perm.view_pending && !perm.view_received && !perm.edit_pending);
    assert!(!perm.create_orders && !perm.edit_received && !perm.remove_orders);
    assert!(!perm.edit_products);
    // the fresh clerk can log in but cannot create further accounts
    let clerk = User::get(&store, "clerk", "clerkpw", PEPPER).unwrap();
    assert_eq!(clerk.id, new_id);
    let refused = signup(&mut store, new_id, String::from("third"), "pw", PEPPER);
    assert_eq!(refused.unwrap_err(), Error::AuthorizationDenied);
    assert_eq!(store.users.len(), 2);
    let ghostly = signup(&mut store, 99, String::from("third"), "pw", PEPPER);
    assert_eq!(ghostly.unwrap_err(), Error::NotFound);
}

#[test]
fn user_builder_commits_all_three_rows() {
    let mut store = Store::new();
    let perms = PermissionsBuilder { view_products: true, ..Default::default() };
    let uid = UserBuilder::new(String::from("amy"), "amypw", PEPPER)
        .unwrap()
        .with_email("amy@example.com")
        .with_permissions(perms)
        .with_preferences(Default::default())
        .build(&mut store);
    assert_eq!(uid, 1);
    let u = User::from_id(&store, uid).unwrap();
    assert_eq!(u.email, "amy@example.com");
    let u2 = User::from_name(&store, "amy").unwrap();
    assert_eq!(u2.id, uid);
    let p = u.get_permissions(&store).unwrap();
    assert!(p.view_products && !p.admin);
    let f = u.get_preferences(&store).unwrap();
    assert_eq!(f.user_id, uid);
    assert!(User::get(&store, "amy", "amypw", PEPPER).is_ok());
}

#[test]
fn user_update_and_cascading_delete() {
    let mut store = bootstrapped();
    let uid = signup(&mut store, 0, String::from("amy"), "amypw", PEPPER).unwrap();
    let mut u = User::from_id(&store, uid).unwrap();
    u.email = String::from("new@example.com");
    u.update(&mut store);
    assert_eq!(User::from_id(&store, uid).unwrap().email, "new@example.com");

    User::delete(&mut store, uid);
    assert_eq!(User::from_id(&store, uid).unwrap_err(), Error::NotFound);
    assert_eq!(user_permissions(&store, uid).unwrap_err(), Error::NotFound);
    assert!(store.preferences.iter().all(|p| p.user_id != uid));
    // the other account is untouched
    assert!(User::from_id(&store, 0).is_ok());
}

#[test]
fn authorize_reads_exactly_one_flag_without_hierarchy() {
    let mut store = bootstrapped();
    let uid = signup(&mut store, 0, String::from("amy"), "amypw", PEPPER).unwrap();
    // grant a single flag by editing the permission row
    let i = store.permissions.iter().position(|p| p.user_id == uid).unwrap();
    store.permissions[i].view_pending = true;
    assert_eq!(authorize(&store, uid, Capability::ViewPending).unwrap(), true);
    assert_eq!(authorize(&store, uid, Capability::ViewProducts).unwrap(), false);
    assert_eq!(authorize(&store, uid, Capability::Admin).unwrap(), false);
    assert_eq!(authorize(&store, 0, Capability::Admin).unwrap(), true);
    assert_eq!(
        authorize(&store, 42, Capability::Admin).unwrap_err(),
        Error::NotFound
    );
}

#[test]
fn denied_listings_return_no_data_at_all() {
    let mut store = bootstrapped();
    ProductBuilder::new("1", "a", false, 1, 2).build(&mut store).unwrap();
    let uid = signup(&mut store, 0, String::from("amy"), "amypw", PEPPER).unwrap();
    assert_eq!(
        list_products(&store, uid, 10, 0).unwrap_err(),
        Error::AuthorizationDenied
    );
    assert_eq!(
        list_pending_orders(&store, uid, 10, 0).unwrap_err(),
        Error::AuthorizationDenied
    );
    assert_eq!(
        list_received_orders(&store, uid, 10, 0).unwrap_err(),
        Error::AuthorizationDenied
    );
    assert_eq!(
        list_categories(&store, uid, 10, 0).unwrap_err(),
        Error::AuthorizationDenied
    );
    assert_eq!(
        list_suppliers(&store, uid, 10, 0).unwrap_err(),
        Error::AuthorizationDenied
    );
    assert_eq!(
        supplier_names(&store, uid).unwrap_err(),
        Error::AuthorizationDenied
    );
    assert_eq!(brand_names(&store, uid).unwrap_err(), Error::AuthorizationDenied);
    assert_eq!(product_names(&store, uid).unwrap_err(), Error::AuthorizationDenied);
    assert_eq!(
        category_names(&store, uid).unwrap_err(),
        Error::AuthorizationDenied
    );
    // the brand listing checks only that the permission row exists
    assert!(list_brands(&store, uid, 10, 0).is_ok());
    assert_eq!(list_brands(&store, 42, 10, 0).unwrap_err(), Error::NotFound);
    // an unknown user is a fault, not a denial
    assert_eq!(list_products(&store, 42, 10, 0).unwrap_err(), Error::NotFound);
    // the admin sees the data
    let page = list_products(&store, 0, 10, 0).unwrap();
    assert_eq!(page.len(), 1);
    assert_eq!(page[0].name, "a");
}

#[test]
fn gated_order_operations() {
    let mut store = bootstrapped();
    let pid = ProductBuilder::new("1", "a", false, 1, 2).build(&mut store).unwrap();
    let uid = signup(&mut store, 0, String::from("amy"), "amypw", PEPPER).unwrap();

    assert_eq!(
        new_pending_order(&mut store, uid, pid, 5).unwrap_err(),
        Error::AuthorizationDenied
    );
    let oid = new_pending_order(&mut store, 0, pid, 5).unwrap();
    assert_eq!(
        mark_order_as_received(&mut store, uid, oid, 100, 5, 0).unwrap_err(),
        Error::AuthorizationDenied
    );
    assert_eq!(
        mark_order_as_received(&mut store, 0, 77, 100, 5, 0).unwrap_err(),
        Error::NotFound
    );
    let rid = mark_order_as_received(&mut store, 0, oid, 100, 5, 0).unwrap();
    assert!(store.pending_orders.is_empty());

    assert_eq!(
        mark_order_as_pending(&mut store, uid, rid).unwrap_err(),
        Error::AuthorizationDenied
    );
    let back = mark_order_as_pending(&mut store, 0, rid).unwrap();
    assert!(store.received_orders.is_empty());
    let o = PendingOrder::get(&store, back).unwrap();
    assert_eq!(o.product_id, pid);
    assert_eq!(o.amount, 5);

    let edited = PendingOrder { id: back, product_id: pid, amount: 9 };
    assert_eq!(
        update_pending_order(&mut store, uid, edited).unwrap_err(),
        Error::AuthorizationDenied
    );
    update_pending_order(&mut store, 0, edited).unwrap();
    assert_eq!(PendingOrder::get(&store, back).unwrap().amount, 9);

    let o = PendingOrder::get(&store, back).unwrap();
    let row = o.mark_as_received(&mut store, 200, 9, 1);
    let mut fixed = row;
    fixed.damaged = 0;
    assert_eq!(
        update_received_order(&mut store, uid, fixed).unwrap_err(),
        Error::AuthorizationDenied
    );
    update_received_order(&mut store, 0, fixed).unwrap();
    assert_eq!(store.received_orders[0].damaged, 0);
}

#[test]
fn gated_product_creation() {
    let mut store = bootstrapped();
    let uid = signup(&mut store, 0, String::from("amy"), "amypw", PEPPER).unwrap();
    let b = ProductBuilder::new("9", "z", false, 1, 2);
    assert_eq!(
        new_product(&mut store, uid, b).unwrap_err(),
        Error::AuthorizationDenied
    );
    let b = ProductBuilder::new("9", "z", false, 1, 2);
    let pid = new_product(&mut store, 0, b).unwrap();
    assert_eq!(pid, 1);
    let b = ProductBuilder::new("10", "y", false, 1, 2).with_brand(55);
    assert_eq!(new_product(&mut store, 0, b).unwrap_err(), Error::NotFound);
}

#[test]
fn supplier_creation_through_the_request_path() {
    let mut store = bootstrapped();
    let s = new_supplier(
        &mut store,
        String::from("farm"),
        Some(String::from("555")),
        None,
    );
    assert_eq!(s, 1);
    assert_eq!(store.suppliers[0].phone_number.as_deref(), Some("555"));
    assert_eq!(store.suppliers[0].email, None);
    let names = supplier_names(&store, 0).unwrap();
    assert_eq!(names, vec![(String::from("farm"), s)]);
}

#[test]
fn credential_service_answers_exactly_on_well_formed_digests() {
    let d = inventory_core::credentials::make_digest("secret", PEPPER).unwrap();
    assert_eq!(
        inventory_core::credentials::check_secret("secret", PEPPER, &d),
        Ok(true)
    );
    assert_eq!(
        inventory_core::credentials::check_secret("other", PEPPER, &d),
        Ok(false)
    );
    assert_eq!(
        inventory_core::credentials::check_secret("secret", "other-pepper", &d),
        Ok(false)
    );
    assert_eq!(
        inventory_core::credentials::check_secret("secret", PEPPER, "junk"),
        Err(Error::Fault)
    );
}

#[test]
fn pool_failure_surfaces_as_a_fault() {
    let e = PoolError::Fail;
    assert_eq!(e.as_fault(), Error::Fault);
    assert_eq!(Error::Fault.describe(), "fault");
    assert_eq!(Error::NotFound.describe(), "not found");
}
