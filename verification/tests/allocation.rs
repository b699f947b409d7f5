//! The identifier allocator: maximum plus one, gaps ignored.

use inventory_core::ids::next_id;
use inventory_core::store::Store;
use inventory_core::owners::CategoryBuilder;

#[test]
fn next_id_of_empty_table_is_one() {
    let ids: Vec<i32> = Vec::new();
    assert_eq!(next_id(&ids), 1);
}

#[test]
fn next_id_ignores_gaps() {
    let ids: Vec<i32> = vec![3, 7];
    assert_eq!(next_id(&ids), 8);
}

#[test]
fn next_id_is_max_plus_one_regardless_of_order() {
    let ids: Vec<i32> = vec![7, 3];
    assert_eq!(next_id(&ids), 8);
    let ids: Vec<i32> = vec![5];
    assert_eq!(next_id(&ids), 6);
}

#[test]
fn builders_allocate_sequentially_and_reuse_after_delete() {
    let mut store = Store::new();
    let a = CategoryBuilder::new(String::from("fruit")).build(&mut store);
    let b = CategoryBuilder::new(String::from("dairy")).build(&mut store);
    assert_eq!(a, 1);
    assert_eq!(b, 2);
    // deleting the highest id frees it for the next allocation
    inventory_core::entities::Category::delete(&mut store, 2);
    let c = CategoryBuilder::new(String::from("bread")).build(&mut store);
    assert_eq!(c, 2);
    // deleting a lower id leaves a gap that is not refilled
    inventory_core::entities::Category::delete(&mut store, 1);
    let d = CategoryBuilder::new(String::from("tins")).build(&mut store);
    assert_eq!(d, 3);
}
