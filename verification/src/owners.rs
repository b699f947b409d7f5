//! Owner records: categories, suppliers and brands, each carrying the
//! array column of product links that the association manager maintains.

use vstd::prelude::*;
use crate::entities::{Brand, Category, Supplier};
use crate::error::Error;
use crate::ids::max_key;
use crate::store::{
    Store, brand_ids, category_ids, lemma_filter_all_true, lemma_filter_ids_ok,
    lemma_filter_single_out, lemma_push_fresh_id, lemma_remove_insert, supplier_ids,
};

verus! {

/// Accumulates a category before it is committed.
#[derive(Debug, PartialEq, Eq)]
pub struct CategoryBuilder {
    pub name: String,
}

impl CategoryBuilder {
    /// Start a category with this name.
    pub fn new(name: String) -> (r: Self)
        ensures
            r.name == name,
    {
        Self { name }
    }

    /// Commit the category under the next free id, with no product links.
    pub fn build(self, store: &mut Store) -> (r: i32)
        requires
            old(store).wf(),
            max_key(category_ids(old(store).categories@)) + 1 < i32::MAX,
        ensures
            final(store).wf(),
            r == max_key(category_ids(old(store).categories@)) + 1,
            !old(store).has_category(r),
            final(store).categories@.len() == old(store).categories@.len() + 1,
            forall|j: int|
                0 <= j < old(store).categories@.len() ==> final(store).categories@[j] == old(
                    store,
                ).categories@[j],
            final(store).categories@.last().id == r,
            final(store).categories@.last().name == self.name,
            final(store).categories@.last().products@ == Seq::<Option<i32>>::empty(),
            final(store).users == old(store).users,
            final(store).permissions == old(store).permissions,
            final(store).preferences == old(store).preferences,
            final(store).products == old(store).products,
            final(store).suppliers == old(store).suppliers,
            final(store).brands == old(store).brands,
            final(store).pending_orders == old(store).pending_orders,
            final(store).received_orders == old(store).received_orders,
    {
        let category_id = store.next_category_id();
        let ghost cats0 = store.categories@;
        let row = Category { id: category_id, name: self.name, products: Vec::new() };
        store.categories.push(row);
        proof {
            assert(category_ids(store.categories@) =~= category_ids(cats0).push(category_id));
            lemma_push_fresh_id(category_ids(cats0), category_id);
        }
        category_id
    }
}

impl Category {
    /// Look a category up by primary key.
    pub fn get(store: &Store, id: i32) -> (r: Result<Category, Error>)
        ensures
            match r {
                Ok(c) => store.has_category(id) && c.id == id && exists|j: int|
                    0 <= j < store.categories@.len() && c@ == (#[trigger] store.categories@[j])@,
                Err(e) => e == Error::NotFound && !store.has_category(id),
            },
    {
        match store.find_category(id) {
            Some(i) => Ok(store.categories[i].clone()),
            None => Err(Error::NotFound),
        }
    }

    /// Overwrite the row whose id matches; a missing id updates nothing.
    pub fn update(self, store: &mut Store)
        requires
            old(store).wf(),
        ensures
            final(store).wf(),
            final(store).categories@.len() == old(store).categories@.len(),
            forall|j: int|
                0 <= j < old(store).categories@.len() && (#[trigger] old(
                    store,
                ).categories@[j]).id != self.id ==> final(store).categories@[j] == old(
                    store,
                ).categories@[j],
            forall|j: int|
                0 <= j < old(store).categories@.len() && (#[trigger] old(
                    store,
                ).categories@[j]).id == self.id ==> final(store).categories@[j] == self,
            final(store).users == old(store).users,
            final(store).permissions == old(store).permissions,
            final(store).preferences == old(store).preferences,
            final(store).products == old(store).products,
            final(store).suppliers == old(store).suppliers,
            final(store).brands == old(store).brands,
            final(store).pending_orders == old(store).pending_orders,
            final(store).received_orders == old(store).received_orders,
    {
        let ghost cats0 = store.categories@;
        let ghost id = self.id;
        match store.find_category(self.id) {
            Some(i) => {
                let _ = store.categories.remove(i);
                store.categories.insert(i, self);
                proof {
                    lemma_remove_insert(cats0, i as int, store.categories@[i as int]);
                    assert(category_ids(store.categories@) =~= category_ids(cats0));
                    assert forall|j: int|
                        0 <= j < cats0.len() && (#[trigger] cats0[j]).id == id
                        implies store.categories@[j] == store.categories@[i as int] by {
                        if j != i as int {
                            assert(category_ids(cats0)[j] == category_ids(cats0)[i as int]);
                        }
                    }
                }
            },
            None => {
                proof {
                    assert forall|j: int| 0 <= j < cats0.len()
                        implies (#[trigger] cats0[j]).id != id by {
                        assert(category_ids(cats0)[j] == cats0[j].id);
                    }
                }
            },
        }
    }

    /// Delete the row whose id matches; a missing id deletes nothing.
    pub fn delete(store: &mut Store, id: i32)
        requires
            old(store).wf(),
        ensures
            final(store).wf(),
            final(store).categories@ == old(store).categories@.filter(|c: Category| c.id != id),
            !final(store).has_category(id),
            final(store).users == old(store).users,
            final(store).permissions == old(store).permissions,
            final(store).preferences == old(store).preferences,
            final(store).products == old(store).products,
            final(store).suppliers == old(store).suppliers,
            final(store).brands == old(store).brands,
            final(store).pending_orders == old(store).pending_orders,
            final(store).received_orders == old(store).received_orders,
    {
        let ghost cats0 = store.categories@;
        match store.find_category(id) {
            Some(i) => {
                let _ = store.categories.remove(i);
                proof {
                    assert forall|j: int| 0 <= j < cats0.len() && j != i as int
                        implies (|c: Category| c.id != id)(#[trigger] cats0[j]) by {
                        assert(category_ids(cats0)[j] != category_ids(cats0)[i as int]);
                    }
                    lemma_filter_single_out(cats0, |c: Category| c.id != id, i as int);
                }
            },
            None => {
                proof {
                    assert forall|j: int| 0 <= j < cats0.len()
                        implies (|c: Category| c.id != id)(#[trigger] cats0[j]) by {
                        assert(category_ids(cats0)[j] == cats0[j].id);
                    }
                    lemma_filter_all_true(cats0, |c: Category| c.id != id);
                }
            },
        }
        proof {
            let key = |c: Category| c.id;
            assert(cats0.map_values(key) =~= category_ids(cats0));
            lemma_filter_ids_ok(cats0, |c: Category| c.id != id, key);
            assert(store.categories@.map_values(key) =~= category_ids(store.categories@));
            assert forall|j: int| 0 <= j < category_ids(store.categories@).len()
                implies category_ids(store.categories@)[j] != id by {
                assert(store.categories@[j].id != id);
            }
        }
    }

    /// Every category row, copied out.
    pub fn get_all(store: &Store) -> (r: Vec<Category>)
        ensures
            r@.len() == store.categories@.len(),
            forall|j: int| 0 <= j < r@.len() ==> (#[trigger] r@[j])@ == store.categories@[j]@,
    {
        let mut r: Vec<Category> = Vec::new();
        let mut k: usize = 0;
        while k < store.categories.len()
            invariant
                k <= store.categories@.len(),
                r@.len() == k,
                forall|j: int| 0 <= j < k ==> (#[trigger] r@[j])@ == store.categories@[j]@,
            decreases store.categories@.len() - k,
        {
            r.push(store.categories[k].clone());
            k += 1;
        }
        r
    }

    /// The name and id of every category, in table order.
    pub fn get_names(store: &Store) -> (r: Vec<(String, i32)>)
        ensures
            r@.len() == store.categories@.len(),
            forall|j: int|
                0 <= j < r@.len() ==> (#[trigger] r@[j]).0@ == store.categories@[j].name@
                    && r@[j].1 == store.categories@[j].id,
    {
        let mut r: Vec<(String, i32)> = Vec::new();
        let mut k: usize = 0;
        while k < store.categories.len()
            invariant
                k <= store.categories@.len(),
                r@.len() == k,
                forall|j: int|
                    0 <= j < k ==> (#[trigger] r@[j]).0@ == store.categories@[j].name@
                        && r@[j].1 == store.categories@[j].id,
            decreases store.categories@.len() - k,
        {
            r.push((store.categories[k].name.clone(), store.categories[k].id));
            k += 1;
        }
        r
    }
}

/// Accumulates a supplier before it is committed.
#[derive(Debug, PartialEq, Eq)]
pub struct SupplierBuilder {
    pub name: String,
    pub phone_number: Option<String>,
    pub email: Option<String>,
}

impl SupplierBuilder {
    /// Start a supplier with this name and no contact details.
    pub fn new(name: String) -> (r: Self)
        ensures
            r.name == name,
            r.phone_number is None,
            r.email is None,
    {
        Self { name, phone_number: None, email: None }
    }

    /// Set the phone number.
    pub fn with_phone_number(self, number: String) -> (r: Self)
        ensures
            r.name == self.name,
            r.phone_number == Some(number),
            r.email == self.email,
    {
        SupplierBuilder { phone_number: Some(number), name: self.name, email: self.email }
    }

    /// Set the email address.
    pub fn with_email(self, email: String) -> (r: Self)
        ensures
            r.name == self.name,
            r.phone_number == self.phone_number,
            r.email == Some(email),
    {
        SupplierBuilder { email: Some(email), name: self.name, phone_number: self.phone_number }
    }

    /// Commit the supplier under the next free id, with no product links.
    pub fn build(self, store: &mut Store) -> (r: i32)
        requires
            old(store).wf(),
            max_key(supplier_ids(old(store).suppliers@)) + 1 < i32::MAX,
        ensures
            final(store).wf(),
            r == max_key(supplier_ids(old(store).suppliers@)) + 1,
            !old(store).has_supplier(r),
            final(store).suppliers@.len() == old(store).suppliers@.len() + 1,
            forall|j: int|
                0 <= j < old(store).suppliers@.len() ==> final(store).suppliers@[j] == old(
                    store,
                ).suppliers@[j],
            final(store).suppliers@.last().id == r,
            final(store).suppliers@.last().name == self.name,
            final(store).suppliers@.last().phone_number == self.phone_number,
            final(store).suppliers@.last().email == self.email,
            final(store).suppliers@.last().products@ == Seq::<Option<i32>>::empty(),
            final(store).users == old(store).users,
            final(store).permissions == old(store).permissions,
            final(store).preferences == old(store).preferences,
            final(store).products == old(store).products,
            final(store).categories == old(store).categories,
            final(store).brands == old(store).brands,
            final(store).pending_orders == old(store).pending_orders,
            final(store).received_orders == old(store).received_orders,
    {
        let supplier_id = store.next_supplier_id();
        let ghost sups0 = store.suppliers@;
        let row = Supplier {
            id: supplier_id,
            name: self.name,
            phone_number: self.phone_number,
            products: Vec::new(),
            email: self.email,
        };
        store.suppliers.push(row);
        proof {
            assert(supplier_ids(store.suppliers@) =~= supplier_ids(sups0).push(supplier_id));
            lemma_push_fresh_id(supplier_ids(sups0), supplier_id);
        }
        supplier_id
    }
}

impl Supplier {
    /// Look a supplier up by primary key.
    pub fn get(store: &Store, id: i32) -> (r: Result<Supplier, Error>)
        ensures
            match r {
                Ok(s) => store.has_supplier(id) && s.id == id && exists|j: int|
                    0 <= j < store.suppliers@.len() && s@ == (#[trigger] store.suppliers@[j])@,
                Err(e) => e == Error::NotFound && !store.has_supplier(id),
            },
    {
        match store.find_supplier(id) {
            Some(i) => Ok(store.suppliers[i].clone()),
            None => Err(Error::NotFound),
        }
    }

    /// Overwrite the row whose id matches; a missing id updates nothing.
    pub fn update(self, store: &mut Store)
        requires
            old(store).wf(),
        ensures
            final(store).wf(),
            final(store).suppliers@.len() == old(store).suppliers@.len(),
            forall|j: int|
                0 <= j < old(store).suppliers@.len() && (#[trigger] old(
                    store,
                ).suppliers@[j]).id != self.id ==> final(store).suppliers@[j] == old(
                    store,
                ).suppliers@[j],
            forall|j: int|
                0 <= j < old(store).suppliers@.len() && (#[trigger] old(
                    store,
                ).suppliers@[j]).id == self.id ==> final(store).suppliers@[j] == self,
            final(store).users == old(store).users,
            final(store).permissions == old(store).permissions,
            final(store).preferences == old(store).preferences,
            final(store).products == old(store).products,
            final(store).categories == old(store).categories,
            final(store).brands == old(store).brands,
            final(store).pending_orders == old(store).pending_orders,
            final(store).received_orders == old(store).received_orders,
    {
        let ghost sups0 = store.suppliers@;
        let ghost id = self.id;
        match store.find_supplier(self.id) {
            Some(i) => {
                let _ = store.suppliers.remove(i);
                store.suppliers.insert(i, self);
                proof {
                    lemma_remove_insert(sups0, i as int, store.suppliers@[i as int]);
                    assert(supplier_ids(store.suppliers@) =~= supplier_ids(sups0));
                    assert forall|j: int|
                        0 <= j < sups0.len() && (#[trigger] sups0[j]).id == id
                        implies store.suppliers@[j] == store.suppliers@[i as int] by {
                        if j != i as int {
                            assert(supplier_ids(sups0)[j] == supplier_ids(sups0)[i as int]);
                        }
                    }
                }
            },
            None => {
                proof {
                    assert forall|j: int| 0 <= j < sups0.len()
                        implies (#[trigger] sups0[j]).id != id by {
                        assert(supplier_ids(sups0)[j] == sups0[j].id);
                    }
                }
            },
        }
    }

    /// Delete the row whose id matches; a missing id deletes nothing.
    pub fn delete(store: &mut Store, id: i32)
        requires
            old(store).wf(),
        ensures
            final(store).wf(),
            final(store).suppliers@ == old(store).suppliers@.filter(|s: Supplier| s.id != id),
            !final(store).has_supplier(id),
            final(store).users == old(store).users,
            final(store).permissions == old(store).permissions,
            final(store).preferences == old(store).preferences,
            final(store).products == old(store).products,
            final(store).categories == old(store).categories,
            final(store).brands == old(store).brands,
            final(store).pending_orders == old(store).pending_orders,
            final(store).received_orders == old(store).received_orders,
    {
        let ghost sups0 = store.suppliers@;
        match store.find_supplier(id) {
            Some(i) => {
                let _ = store.suppliers.remove(i);
                proof {
                    assert forall|j: int| 0 <= j < sups0.len() && j != i as int
                        implies (|s: Supplier| s.id != id)(#[trigger] sups0[j]) by {
                        assert(supplier_ids(sups0)[j] != supplier_ids(sups0)[i as int]);
                    }
                    lemma_filter_single_out(sups0, |s: Supplier| s.id != id, i as int);
                }
            },
            None => {
                proof {
                    assert forall|j: int| 0 <= j < sups0.len()
                        implies (|s: Supplier| s.id != id)(#[trigger] sups0[j]) by {
                        assert(supplier_ids(sups0)[j] == sups0[j].id);
                    }
                    lemma_filter_all_true(sups0, |s: Supplier| s.id != id);
                }
            },
        }
        proof {
            let key = |s: Supplier| s.id;
            assert(sups0.map_values(key) =~= supplier_ids(sups0));
            lemma_filter_ids_ok(sups0, |s: Supplier| s.id != id, key);
            assert(store.suppliers@.map_values(key) =~= supplier_ids(store.suppliers@));
            assert forall|j: int| 0 <= j < supplier_ids(store.suppliers@).len()
                implies supplier_ids(store.suppliers@)[j] != id by {
                assert(store.suppliers@[j].id != id);
            }
        }
    }

    /// Every supplier row, copied out.
    pub fn get_all(store: &Store) -> (r: Vec<Supplier>)
        ensures
            r@.len() == store.suppliers@.len(),
            forall|j: int| 0 <= j < r@.len() ==> (#[trigger] r@[j])@ == store.suppliers@[j]@,
    {
        let mut r: Vec<Supplier> = Vec::new();
        let mut k: usize = 0;
        while k < store.suppliers.len()
            invariant
                k <= store.suppliers@.len(),
                r@.len() == k,
                forall|j: int| 0 <= j < k ==> (#[trigger] r@[j])@ == store.suppliers@[j]@,
            decreases store.suppliers@.len() - k,
        {
            r.push(store.suppliers[k].clone());
            k += 1;
        }
        r
    }

    /// The name and id of every supplier, in table order.
    pub fn get_names(store: &Store) -> (r: Vec<(String, i32)>)
        ensures
            r@.len() == store.suppliers@.len(),
            forall|j: int|
                0 <= j < r@.len() ==> (#[trigger] r@[j]).0@ == store.suppliers@[j].name@
                    && r@[j].1 == store.suppliers@[j].id,
    {
        let mut r: Vec<(String, i32)> = Vec::new();
        let mut k: usize = 0;
        while k < store.suppliers.len()
            invariant
                k <= store.suppliers@.len(),
                r@.len() == k,
                forall|j: int|
                    0 <= j < k ==> (#[trigger] r@[j]).0@ == store.suppliers@[j].name@
                        && r@[j].1 == store.suppliers@[j].id,
            decreases store.suppliers@.len() - k,
        {
            r.push((store.suppliers[k].name.clone(), store.suppliers[k].id));
            k += 1;
        }
        r
    }
}

/// Accumulates a brand before it is committed.
#[derive(Debug, PartialEq, Eq)]
pub struct BrandBuilder {
    pub name: String,
}

impl BrandBuilder {
    /// Start a brand with this name.
    pub fn new(name: String) -> (r: Self)
        ensures
            r.name == name,
    {
        Self { name }
    }

    /// Commit the brand under the next free id, with no product links.
    pub fn build(self, store: &mut Store) -> (r: i32)
        requires
            old(store).wf(),
            max_key(brand_ids(old(store).brands@)) + 1 < i32::MAX,
        ensures
            final(store).wf(),
            r == max_key(brand_ids(old(store).brands@)) + 1,
            !old(store).has_brand(r),
            final(store).brands@.len() == old(store).brands@.len() + 1,
            forall|j: int|
                0 <= j < old(store).brands@.len() ==> final(store).brands@[j] == old(
                    store,
                ).brands@[j],
            final(store).brands@.last().id == r,
            final(store).brands@.last().name == self.name,
            final(store).brands@.last().products@ == Seq::<Option<i32>>::empty(),
            final(store).users == old(store).users,
            final(store).permissions == old(store).permissions,
            final(store).preferences == old(store).preferences,
            final(store).products == old(store).products,
            final(store).categories == old(store).categories,
            final(store).suppliers == old(store).suppliers,
            final(store).pending_orders == old(store).pending_orders,
            final(store).received_orders == old(store).received_orders,
    {
        let brand_id = store.next_brand_id();
        let ghost brands0 = store.brands@;
        let row = Brand { id: brand_id, name: self.name, products: Vec::new() };
        store.brands.push(row);
        proof {
            assert(brand_ids(store.brands@) =~= brand_ids(brands0).push(brand_id));
            lemma_push_fresh_id(brand_ids(brands0), brand_id);
        }
        brand_id
    }
}

impl Brand {
    /// Look a brand up by primary key.
    pub fn get(store: &Store, id: i32) -> (r: Result<Brand, Error>)
        ensures
            match r {
                Ok(b) => store.has_brand(id) && b.id == id && exists|j: int|
                    0 <= j < store.brands@.len() && b@ == (#[trigger] store.brands@[j])@,
                Err(e) => e == Error::NotFound && !store.has_brand(id),
            },
    {
        match store.find_brand(id) {
            Some(i) => Ok(store.brands[i].clone()),
            None => Err(Error::NotFound),
        }
    }

    /// Overwrite the row whose id matches; a missing id updates nothing.
    pub fn update(self, store: &mut Store)
        requires
            old(store).wf(),
        ensures
            final(store).wf(),
            final(store).brands@.len() == old(store).brands@.len(),
            forall|j: int|
                0 <= j < old(store).brands@.len() && (#[trigger] old(store).brands@[j]).id
                    != self.id ==> final(store).brands@[j] == old(store).brands@[j],
            forall|j: int|
                0 <= j < old(store).brands@.len() && (#[trigger] old(store).brands@[j]).id
                    == self.id ==> final(store).brands@[j] == self,
            final(store).users == old(store).users,
            final(store).permissions == old(store).permissions,
            final(store).preferences == old(store).preferences,
            final(store).products == old(store).products,
            final(store).categories == old(store).categories,
            final(store).suppliers == old(store).suppliers,
            final(store).pending_orders == old(store).pending_orders,
            final(store).received_orders == old(store).received_orders,
    {
        let ghost brands0 = store.brands@;
        let ghost id = self.id;
        match store.find_brand(self.id) {
            Some(i) => {
                let _ = store.brands.remove(i);
                store.brands.insert(i, self);
                proof {
                    lemma_remove_insert(brands0, i as int, store.brands@[i as int]);
                    assert(brand_ids(store.brands@) =~= brand_ids(brands0));
                    assert forall|j: int|
                        0 <= j < brands0.len() && (#[trigger] brands0[j]).id == id
                        implies store.brands@[j] == store.brands@[i as int] by {
                        if j != i as int {
                            assert(brand_ids(brands0)[j] == brand_ids(brands0)[i as int]);
                        }
                    }
                }
            },
            None => {
                proof {
                    assert forall|j: int| 0 <= j < brands0.len()
                        implies (#[trigger] brands0[j]).id != id by {
                        assert(brand_ids(brands0)[j] == brands0[j].id);
                    }
                }
            },
        }
    }

    /// Delete the row whose id matches; a missing id deletes nothing.
    pub fn delete(store: &mut Store, id: i32)
        requires
            old(store).wf(),
        ensures
            final(store).wf(),
            final(store).brands@ == old(store).brands@.filter(|b: Brand| b.id != id),
            !final(store).has_brand(id),
            final(store).users == old(store).users,
            final(store).permissions == old(store).permissions,
            final(store).preferences == old(store).preferences,
            final(store).products == old(store).products,
            final(store).categories == old(store).categories,
            final(store).suppliers == old(store).suppliers,
            final(store).pending_orders == old(store).pending_orders,
            final(store).received_orders == old(store).received_orders,
    {
        let ghost brands0 = store.brands@;
        match store.find_brand(id) {
            Some(i) => {
                let _ = store.brands.remove(i);
                proof {
                    assert forall|j: int| 0 <= j < brands0.len() && j != i as int
                        implies (|b: Brand| b.id != id)(#[trigger] brands0[j]) by {
                        assert(brand_ids(brands0)[j] != brand_ids(brands0)[i as int]);
                    }
                    lemma_filter_single_out(brands0, |b: Brand| b.id != id, i as int);
                }
            },
            None => {
                proof {
                    assert forall|j: int| 0 <= j < brands0.len()
                        implies (|b: Brand| b.id != id)(#[trigger] brands0[j]) by {
                        assert(brand_ids(brands0)[j] == brands0[j].id);
                    }
                    lemma_filter_all_true(brands0, |b: Brand| b.id != id);
                }
            },
        }
        proof {
            let key = |b: Brand| b.id;
            assert(brands0.map_values(key) =~= brand_ids(brands0));
            lemma_filter_ids_ok(brands0, |b: Brand| b.id != id, key);
            assert(store.brands@.map_values(key) =~= brand_ids(store.brands@));
            assert forall|j: int| 0 <= j < brand_ids(store.brands@).len()
                implies brand_ids(store.brands@)[j] != id by {
                assert(store.brands@[j].id != id);
            }
        }
    }

    /// Every brand row, copied out.
    pub fn get_all(store: &Store) -> (r: Vec<Brand>)
        ensures
            r@.len() == store.brands@.len(),
            forall|j: int| 0 <= j < r@.len() ==> (#[trigger] r@[j])@ == store.brands@[j]@,
    {
        let mut r: Vec<Brand> = Vec::new();
        let mut k: usize = 0;
        while k < store.brands.len()
            invariant
                k <= store.brands@.len(),
                r@.len() == k,
                forall|j: int| 0 <= j < k ==> (#[trigger] r@[j])@ == store.brands@[j]@,
            decreases store.brands@.len() - k,
        {
            r.push(store.brands[k].clone());
            k += 1;
        }
        r
    }

    /// The name and id of every brand, in table order.
    pub fn get_names(store: &Store) -> (r: Vec<(String, i32)>)
        ensures
            r@.len() == store.brands@.len(),
            forall|j: int|
                0 <= j < r@.len() ==> (#[trigger] r@[j]).0@ == store.brands@[j].name@ && r@[j].1
                    == store.brands@[j].id,
    {
        let mut r: Vec<(String, i32)> = Vec::new();
        let mut k: usize = 0;
        while k < store.brands.len()
            invariant
                k <= store.brands@.len(),
                r@.len() == k,
                forall|j: int|
                    0 <= j < k ==> (#[trigger] r@[j]).0@ == store.brands@[j].name@ && r@[j].1
                        == store.brands@[j].id,
            decreases store.brands@.len() - k,
        {
            r.push((store.brands[k].name.clone(), store.brands[k].id));
            k += 1;
        }
        r
    }
}

} // verus!
