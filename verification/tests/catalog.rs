//! Products, owners and the association arrays: attach appends (twice
//! means two links), detach clears every link, and deleting a product
//! erases it everywhere.

use inventory_core::entities::{Brand, Category, PendingOrder, Product, ReceivedOrder, Supplier};
use inventory_core::error::Error;
use inventory_core::orders::PendingOrderBuilder;
use inventory_core::owners::{BrandBuilder, CategoryBuilder, SupplierBuilder};
use inventory_core::products::ProductBuilder;
use inventory_core::store::Store;

fn store_with_product() -> (Store, i32) {
    let mut store = Store::new();
    let pid = ProductBuilder::new("123", "apple", false, 100, 200)
        .with_description("a fruit")
        .build(&mut store)
        .unwrap();
    (store, pid)
}

#[test]
fn product_builder_writes_the_row() {
    let (store, pid) = store_with_product();
    let p = Product::get(&store, pid).unwrap();
    assert_eq!(p.id, 1);
    assert_eq!(p.upc, "123");
    assert_eq!(p.name, "apple");
    assert_eq!(p.description, "a fruit");
    assert_eq!(p.amount, 0);
    assert_eq!(p.cost_price_per_unit, 100);
    assert_eq!(p.selling_price_per_unit, 200);
    assert_eq!(p.sale_end, None);
    assert_eq!(p.sale_price, None);
}

#[test]
fn product_lookup_of_missing_id_is_not_found() {
    let store = Store::new();
    assert_eq!(Product::get(&store, 42).unwrap_err(), Error::NotFound);
}

#[test]
fn attach_twice_stores_the_link_twice_and_detach_clears_both() {
    let (mut store, pid) = store_with_product();
    let cid = CategoryBuilder::new(String::from("fruit")).build(&mut store);
    let p = Product::get(&store, pid).unwrap();
    p.add_category(&mut store, cid).unwrap();
    p.add_category(&mut store, cid).unwrap();
    let c = Category::get(&store, cid).unwrap();
    assert_eq!(c.products, vec![Some(pid), Some(pid)]);
    let p = Product::get(&store, pid).unwrap();
    p.remove_category(&mut store, cid).unwrap();
    let c = Category::get(&store, cid).unwrap();
    assert_eq!(c.products, Vec::<Option<i32>>::new());
}

#[test]
fn attach_to_missing_owner_is_not_found() {
    let (mut store, pid) = store_with_product();
    let p = Product::get(&store, pid).unwrap();
    assert_eq!(p.add_supplier(&mut store, 9).unwrap_err(), Error::NotFound);
    assert_eq!(p.add_brand(&mut store, 9).unwrap_err(), Error::NotFound);
    assert_eq!(p.add_category(&mut store, 9).unwrap_err(), Error::NotFound);
}

#[test]
fn builder_attaches_to_named_owners() {
    let mut store = Store::new();
    let b = BrandBuilder::new(String::from("acme")).build(&mut store);
    let c = CategoryBuilder::new(String::from("fruit")).build(&mut store);
    let s = SupplierBuilder::new(String::from("farm")).build(&mut store);
    let pid = ProductBuilder::new("55", "pear", false, 10, 20)
        .with_brand(b)
        .with_categories(&[c, c])
        .with_suppliers(&[s])
        .build(&mut store)
        .unwrap();
    assert_eq!(Brand::get(&store, b).unwrap().products, vec![Some(pid)]);
    assert_eq!(
        Category::get(&store, c).unwrap().products,
        vec![Some(pid), Some(pid)]
    );
    assert_eq!(Supplier::get(&store, s).unwrap().products, vec![Some(pid)]);
}

#[test]
fn builder_with_missing_owner_writes_nothing() {
    let mut store = Store::new();
    let c = CategoryBuilder::new(String::from("fruit")).build(&mut store);
    let r = ProductBuilder::new("55", "pear", false, 10, 20)
        .with_categories(&[c, 77])
        .build(&mut store);
    assert_eq!(r.unwrap_err(), Error::NotFound);
    assert_eq!(store.products.len(), 0);
    assert_eq!(Category::get(&store, c).unwrap().products, Vec::<Option<i32>>::new());
}

#[test]
fn deleting_a_product_erases_it_everywhere() {
    let mut store = Store::new();
    let b = BrandBuilder::new(String::from("acme")).build(&mut store);
    let c = CategoryBuilder::new(String::from("fruit")).build(&mut store);
    let s = SupplierBuilder::new(String::from("farm")).build(&mut store);
    let pid = ProductBuilder::new("55", "pear", false, 10, 20)
        .with_brand(b)
        .with_categories(&[c])
        .with_suppliers(&[s])
        .build(&mut store)
        .unwrap();
    let other = ProductBuilder::new("56", "plum", false, 11, 21)
        .with_suppliers(&[s])
        .build(&mut store)
        .unwrap();
    PendingOrderBuilder::new(pid, 5).build(&mut store);
    let keepme = PendingOrderBuilder::new(other, 7).build(&mut store);
    let po = PendingOrderBuilder::new(pid, 9).build(&mut store);
    let po = PendingOrder::get(&store, po).unwrap();
    po.mark_as_received(&mut store, 1000, 9, 0);

    let p = Product::get(&store, pid).unwrap();
    p.delete(&mut store);

    assert!(!Supplier::get(&store, s).unwrap().products.contains(&Some(pid)));
    assert!(Supplier::get(&store, s).unwrap().products.contains(&Some(other)));
    assert_eq!(Category::get(&store, c).unwrap().products, Vec::<Option<i32>>::new());
    assert_eq!(Brand::get(&store, b).unwrap().products, Vec::<Option<i32>>::new());
    assert_eq!(Product::get(&store, pid).unwrap_err(), Error::NotFound);
    assert!(store.pending_orders.iter().all(|o| o.product_id != pid));
    assert!(store.received_orders.iter().all(|o| o.product_id != pid));
    assert!(store.pending_orders.iter().any(|o| o.id == keepme));
    assert!(Product::get(&store, other).is_ok());
}

#[test]
fn owners_of_a_product_by_containment() {
    let mut store = Store::new();
    let c = CategoryBuilder::new(String::from("fruit")).build(&mut store);
    let pid = ProductBuilder::new("123", "apple", false, 100, 200)
        .build(&mut store)
        .unwrap();
    let p = Product::get(&store, pid).unwrap();
    p.add_category(&mut store, c).unwrap();
    let p = Product::get(&store, pid).unwrap();
    let cats = p.get_categories(&store);
    assert_eq!(cats.len(), 1);
    assert_eq!(cats[0].id, c);
    assert_eq!(cats[0].name, "fruit");
    assert!(p.get_suppliers(&store).is_empty());
    assert!(p.get_brand(&store).is_none());

    let p = Product::get(&store, pid).unwrap();
    p.delete(&mut store);
    let orphan = Product {
        id: pid,
        upc: String::from("123"),
        name: String::from("apple"),
        description: String::new(),
        amount: 0,
        case_size: None,
        measure_by_weight: false,
        cost_price_per_unit: 100,
        selling_price_per_unit: 200,
        sale_end: None,
        buy_level: None,
        sale_price: None,
    };
    assert!(orphan.get_categories(&store).is_empty());
    assert!(orphan.get_suppliers(&store).is_empty());
    assert!(orphan.get_brand(&store).is_none());
    assert_eq!(Product::get(&store, pid).unwrap_err(), Error::NotFound);
}

#[test]
fn product_update_overwrites_by_id_and_ignores_missing() {
    let (mut store, pid) = store_with_product();
    let mut p = Product::get(&store, pid).unwrap();
    p.amount = 50;
    p.name = String::from("green apple");
    p.update(&mut store);
    let p = Product::get(&store, pid).unwrap();
    assert_eq!(p.amount, 50);
    assert_eq!(p.name, "green apple");

    let stray = Product { id: 99, ..p };
    stray.update(&mut store);
    assert_eq!(store.products.len(), 1);
    assert_eq!(Product::get(&store, 99).unwrap_err(), Error::NotFound);
}

#[test]
fn product_pages_and_names() {
    let mut store = Store::new();
    for (upc, name) in [("1", "a"), ("2", "b"), ("3", "c")] {
        ProductBuilder::new(upc, name, false, 1, 2).build(&mut store).unwrap();
    }
    let page = Product::get_all(&store, 2, 1);
    assert_eq!(page.len(), 2);
    assert_eq!(page[0].name, "b");
    assert_eq!(page[1].name, "c");
    let all = Product::get_all(&store, 10, 0);
    assert_eq!(all.len(), 3);
    let empty = Product::get_all(&store, 10, 5);
    assert!(empty.is_empty());
    let names = Product::get_names(&store);
    assert_eq!(
        names,
        vec![
            (String::from("a"), String::from("1"), 1),
            (String::from("b"), String::from("2"), 2),
            (String::from("c"), String::from("3"), 3),
        ]
    );
}

#[test]
fn supplier_contact_fields_and_names() {
    let mut store = Store::new();
    let s = SupplierBuilder::new(String::from("farm"))
        .with_phone_number(String::from("555"))
        .with_email(String::from("farm@example.com"))
        .build(&mut store);
    let row = Supplier::get(&store, s).unwrap();
    assert_eq!(row.phone_number.as_deref(), Some("555"));
    assert_eq!(row.email.as_deref(), Some("farm@example.com"));
    assert_eq!(Supplier::get_names(&store), vec![(String::from("farm"), s)]);
    let all = Supplier::get_all(&store);
    assert_eq!(all.len(), 1);
    assert_eq!(all[0].name, "farm");
}

#[test]
fn owner_rows_update_and_delete_by_id() {
    let mut store = Store::new();
    let c = CategoryBuilder::new(String::from("fruit")).build(&mut store);
    let b = BrandBuilder::new(String::from("acme")).build(&mut store);
    let mut row = Category::get(&store, c).unwrap();
    row.name = String::from("fresh fruit");
    row.update(&mut store);
    assert_eq!(Category::get(&store, c).unwrap().name, "fresh fruit");
    assert_eq!(Category::get_names(&store), vec![(String::from("fresh fruit"), c)]);
    Category::delete(&mut store, c);
    assert_eq!(Category::get(&store, c).unwrap_err(), Error::NotFound);
    assert_eq!(Brand::get_names(&store), vec![(String::from("acme"), b)]);
    assert_eq!(Brand::get_all(&store).len(), 1);
    Brand::delete(&mut store, b);
    assert_eq!(Brand::get(&store, b).unwrap_err(), Error::NotFound);
    assert!(ReceivedOrder::get_all(&store, 10, 0).is_empty());
}
