//! The order lifecycle: placing, receiving, reverting, and the pagination
//! of both order tables.

use inventory_core::entities::{PendingOrder, ReceivedOrder};
use inventory_core::error::Error;
use inventory_core::orders::PendingOrderBuilder;
use inventory_core::products::ProductBuilder;
use inventory_core::store::Store;

fn store_with_product() -> (Store, i32) {
    let mut store = Store::new();
    let pid = ProductBuilder::new("123", "apple", false, 100, 200)
        .build(&mut store)
        .unwrap();
    (store, pid)
}

#[test]
fn place_and_get_pending_order() {
    let (mut store, pid) = store_with_product();
    let oid = PendingOrderBuilder::new(pid, 12).build(&mut store);
    assert_eq!(oid, 1);
    let o = PendingOrder::get(&store, oid).unwrap();
    assert_eq!(o.product_id, pid);
    assert_eq!(o.amount, 12);
    assert_eq!(PendingOrder::get(&store, 7).unwrap_err(), Error::NotFound);
}

#[test]
fn mark_as_received_copies_the_order_and_deletes_the_pending_row() {
    let (mut store, pid) = store_with_product();
    let oid = PendingOrderBuilder::new(pid, 12).build(&mut store);
    let o = PendingOrder::get(&store, oid).unwrap();
    let row = o.mark_as_received(&mut store, 5000, 11, 1);
    assert_eq!(row.product_id, pid);
    assert_eq!(row.gross_amount, 12);
    assert_eq!(row.actually_received, 11);
    assert_eq!(row.damaged, 1);
    assert_eq!(row.received, Some(5000));
    assert_eq!(PendingOrder::get(&store, oid).unwrap_err(), Error::NotFound);
    let fetched = ReceivedOrder::get(&store, row.id).unwrap();
    assert_eq!(fetched, row);
}

#[test]
fn receive_then_revert_reproduces_the_order_under_a_new_id() {
    let (mut store, pid) = store_with_product();
    let first = PendingOrderBuilder::new(pid, 12).build(&mut store);
    let second = PendingOrderBuilder::new(pid, 3).build(&mut store);
    assert!(second > first);
    let o = PendingOrder::get(&store, first).unwrap();
    let row = o.mark_as_received(&mut store, 5000, 11, 1);

    // revert: re-place the originally ordered quantity, drop the receipt
    let replaced = PendingOrderBuilder::new(row.product_id, row.gross_amount).build(&mut store);
    ReceivedOrder::delete(&mut store, row.id);

    assert_ne!(replaced, first);
    let o2 = PendingOrder::get(&store, replaced).unwrap();
    assert_eq!(o2.product_id, pid);
    assert_eq!(o2.amount, 12);
    // the intermediate receipt data is gone with the received row
    assert_eq!(ReceivedOrder::get(&store, row.id).unwrap_err(), Error::NotFound);
    assert!(store.received_orders.is_empty());
}

#[test]
fn pending_order_update_and_delete() {
    let (mut store, pid) = store_with_product();
    let oid = PendingOrderBuilder::new(pid, 12).build(&mut store);
    let mut o = PendingOrder::get(&store, oid).unwrap();
    o.amount = 20;
    o.update(&mut store);
    assert_eq!(PendingOrder::get(&store, oid).unwrap().amount, 20);
    PendingOrder::delete(&mut store, oid);
    assert_eq!(PendingOrder::get(&store, oid).unwrap_err(), Error::NotFound);
    // deleting again is a harmless no-op
    PendingOrder::delete(&mut store, oid);
    assert!(store.pending_orders.is_empty());
}

#[test]
fn received_order_update_and_delete() {
    let (mut store, pid) = store_with_product();
    let oid = PendingOrderBuilder::new(pid, 12).build(&mut store);
    let o = PendingOrder::get(&store, oid).unwrap();
    let row = o.mark_as_received(&mut store, 5000, 11, 1);
    let mut edited = ReceivedOrder::get(&store, row.id).unwrap();
    edited.damaged = 2;
    edited.update(&mut store);
    assert_eq!(ReceivedOrder::get(&store, row.id).unwrap().damaged, 2);
    ReceivedOrder::delete(&mut store, row.id);
    assert_eq!(ReceivedOrder::get(&store, row.id).unwrap_err(), Error::NotFound);
}

#[test]
fn order_tables_paginate_in_table_order() {
    let (mut store, pid) = store_with_product();
    for amount in [1, 2, 3, 4] {
        PendingOrderBuilder::new(pid, amount).build(&mut store);
    }
    let page = PendingOrder::get_all(&store, 2, 1);
    assert_eq!(page.len(), 2);
    assert_eq!(page[0].amount, 2);
    assert_eq!(page[1].amount, 3);
    assert!(PendingOrder::get_all(&store, 5, 9).is_empty());
    assert_eq!(PendingOrder::get_all(&store, 50, 0).len(), 4);

    let o = PendingOrder::get(&store, 1).unwrap();
    o.mark_as_received(&mut store, 10, 1, 0);
    let o = PendingOrder::get(&store, 2).unwrap();
    o.mark_as_received(&mut store, 20, 2, 0);
    let rpage = ReceivedOrder::get_all(&store, 1, 1);
    assert_eq!(rpage.len(), 1);
    assert_eq!(rpage[0].gross_amount, 2);
}
