//! Products: point lookups, keyed updates, association edits against the
//! owner tables, listings, and the cascading delete that erases a product
//! from every owner's array column and from both order tables before the
//! row itself goes.

use vstd::prelude::*;
use vstd::math::min;
use crate::assoc::{attach_ids, count_id, detach_entries, detach_ids, lists_entry, lists_product, repeated};
use crate::entities::{Brand, Category, PendingOrder, Product, ReceivedOrder, Supplier};
use crate::error::Error;
use crate::ids::{lemma_max_key_bound, max_key};
use crate::store::{
    Store, brand_ids, category_ids, lemma_filter_all_true, lemma_filter_ids_ok,
    lemma_filter_single_out, lemma_push_fresh_id, lemma_remove_insert, pending_ids, product_ids,
    received_ids, supplier_ids,
};

verus! {

impl Product {
    /// Look a product up by primary key.
    pub fn get(store: &Store, id: i32) -> (r: Result<Product, Error>)
        ensures
            match r {
                Ok(p) => store.has_product(id) && p.id == id && exists|j: int|
                    0 <= j < store.products@.len() && p@ == (#[trigger] store.products@[j])@,
                Err(e) => e == Error::NotFound && !store.has_product(id),
            },
    {
        match store.find_product(id) {
            Some(i) => Ok(store.products[i].clone()),
            None => Err(Error::NotFound),
        }
    }

    /// Overwrite the row whose id matches; a missing id updates nothing.
    pub fn update(self, store: &mut Store)
        requires
            old(store).wf(),
        ensures
            final(store).wf(),
            final(store).products@.len() == old(store).products@.len(),
            forall|j: int|
                0 <= j < old(store).products@.len() && (#[trigger] old(store).products@[j]).id
                    != self.id ==> final(store).products@[j] == old(store).products@[j],
            forall|j: int|
                0 <= j < old(store).products@.len() && (#[trigger] old(store).products@[j]).id
                    == self.id ==> final(store).products@[j] == self,
            final(store).users == old(store).users,
            final(store).permissions == old(store).permissions,
            final(store).preferences == old(store).preferences,
            final(store).categories == old(store).categories,
            final(store).suppliers == old(store).suppliers,
            final(store).brands == old(store).brands,
            final(store).pending_orders == old(store).pending_orders,
            final(store).received_orders == old(store).received_orders,
    {
        let ghost prods0 = store.products@;
        let ghost id = self.id;
        match store.find_product(self.id) {
            Some(i) => {
                let _ = store.products.remove(i);
                store.products.insert(i, self);
                proof {
                    lemma_remove_insert(prods0, i as int, store.products@[i as int]);
                    assert(product_ids(store.products@) =~= product_ids(prods0));
                    assert forall|j: int|
                        0 <= j < prods0.len() && (#[trigger] prods0[j]).id == id
                        implies store.products@[j] == store.products@[i as int] by {
                        if j != i as int {
                            assert(product_ids(prods0)[j] == product_ids(prods0)[i as int]);
                        }
                    }
                }
            },
            None => {
                proof {
                    assert forall|j: int| 0 <= j < prods0.len()
                        implies (#[trigger] prods0[j]).id != id by {
                        assert(product_ids(prods0)[j] == prods0[j].id);
                    }
                }
            },
        }
    }

    /// Attach this product to a supplier: append one link to the
    /// supplier's array, duplicates and all.
    pub fn add_supplier(&self, store: &mut Store, id: i32) -> (r: Result<(), Error>)
        requires
            old(store).wf(),
        ensures
            final(store).wf(),
            match r {
                Ok(()) => {
                    &&& old(store).has_supplier(id)
                    &&& final(store).suppliers@.len() == old(store).suppliers@.len()
                    &&& forall|j: int|
                        0 <= j < old(store).suppliers@.len() && (#[trigger] old(
                            store,
                        ).suppliers@[j]).id != id ==> final(store).suppliers@[j] == old(
                            store,
                        ).suppliers@[j]
                    &&& forall|j: int|
                        0 <= j < old(store).suppliers@.len() && (#[trigger] old(
                            store,
                        ).suppliers@[j]).id == id ==> {
                            let n = final(store).suppliers@[j];
                            let o = old(store).suppliers@[j];
                            n.id == o.id && n.name == o.name && n.phone_number == o.phone_number
                                && n.email == o.email && n.products@ == attach_ids(
                                o.products@,
                                self.id,
                            )
                        }
                },
                Err(e) => e == Error::NotFound && !old(store).has_supplier(id)
                    && final(store).suppliers == old(store).suppliers,
            },
            final(store).users == old(store).users,
            final(store).permissions == old(store).permissions,
            final(store).preferences == old(store).preferences,
            final(store).products == old(store).products,
            final(store).categories == old(store).categories,
            final(store).brands == old(store).brands,
            final(store).pending_orders == old(store).pending_orders,
            final(store).received_orders == old(store).received_orders,
    {
        let ghost sups0 = store.suppliers@;
        match store.find_supplier(id) {
            Some(i) => {
                let mut row = store.suppliers.remove(i);
                row.products.push(Some(self.id));
                store.suppliers.insert(i, row);
                proof {
                    lemma_remove_insert(sups0, i as int, store.suppliers@[i as int]);
                    assert(supplier_ids(store.suppliers@) =~= supplier_ids(sups0));
                    assert forall|j: int|
                        0 <= j < sups0.len() && (#[trigger] sups0[j]).id == id && j != i as int
                        implies false by {
                        assert(supplier_ids(sups0)[j] == supplier_ids(sups0)[i as int]);
                    }
                }
                Ok(())
            },
            None => Err(Error::NotFound),
        }
    }

    /// Attach this product to a category.
    pub fn add_category(&self, store: &mut Store, id: i32) -> (r: Result<(), Error>)
        requires
            old(store).wf(),
        ensures
            final(store).wf(),
            match r {
                Ok(()) => {
                    &&& old(store).has_category(id)
                    &&& final(store).categories@.len() == old(store).categories@.len()
                    &&& forall|j: int|
                        0 <= j < old(store).categories@.len() && (#[trigger] old(
                            store,
                        ).categories@[j]).id != id ==> final(store).categories@[j] == old(
                            store,
                        ).categories@[j]
                    &&& forall|j: int|
                        0 <= j < old(store).categories@.len() && (#[trigger] old(
                            store,
                        ).categories@[j]).id == id ==> {
                            let n = final(store).categories@[j];
                            let o = old(store).categories@[j];
                            n.id == o.id && n.name == o.name && n.products@ == attach_ids(
                                o.products@,
                                self.id,
                            )
                        }
                },
                Err(e) => e == Error::NotFound && !old(store).has_category(id)
                    && final(store).categories == old(store).categories,
            },
            final(store).users == old(store).users,
            final(store).permissions == old(store).permissions,
            final(store).preferences == old(store).preferences,
            final(store).products == old(store).products,
            final(store).suppliers == old(store).suppliers,
            final(store).brands == old(store).brands,
            final(store).pending_orders == old(store).pending_orders,
            final(store).received_orders == old(store).received_orders,
    {
        let ghost cats0 = store.categories@;
        match store.find_category(id) {
            Some(i) => {
                let mut row = store.categories.remove(i);
                row.products.push(Some(self.id));
                store.categories.insert(i, row);
                proof {
                    lemma_remove_insert(cats0, i as int, store.categories@[i as int]);
                    assert(category_ids(store.categories@) =~= category_ids(cats0));
                    assert forall|j: int|
                        0 <= j < cats0.len() && (#[trigger] cats0[j]).id == id && j != i as int
                        implies false by {
                        assert(category_ids(cats0)[j] == category_ids(cats0)[i as int]);
                    }
                }
                Ok(())
            },
            None => Err(Error::NotFound),
        }
    }

    /// Attach this product to a brand. At most one brand should list a
    /// product, but that is convention: this call appends a link like the
    /// other two.
    pub fn add_brand(&self, store: &mut Store, id: i32) -> (r: Result<(), Error>)
        requires
            old(store).wf(),
        ensures
            final(store).wf(),
            match r {
                Ok(()) => {
                    &&& old(store).has_brand(id)
                    &&& final(store).brands@.len() == old(store).brands@.len()
                    &&& forall|j: int|
                        0 <= j < old(store).brands@.len() && (#[trigger] old(
                            store,
                        ).brands@[j]).id != id ==> final(store).brands@[j] == old(
                            store,
                        ).brands@[j]
                    &&& forall|j: int|
                        0 <= j < old(store).brands@.len() && (#[trigger] old(
                            store,
                        ).brands@[j]).id == id ==> {
                            let n = final(store).brands@[j];
                            let o = old(store).brands@[j];
                            n.id == o.id && n.name == o.name && n.products@ == attach_ids(
                                o.products@,
                                self.id,
                            )
                        }
                },
                Err(e) => e == Error::NotFound && !old(store).has_brand(id) && final(store).brands
                    == old(store).brands,
            },
            final(store).users == old(store).users,
            final(store).permissions == old(store).permissions,
            final(store).preferences == old(store).preferences,
            final(store).products == old(store).products,
            final(store).categories == old(store).categories,
            final(store).suppliers == old(store).suppliers,
            final(store).pending_orders == old(store).pending_orders,
            final(store).received_orders == old(store).received_orders,
    {
        let ghost brands0 = store.brands@;
        match store.find_brand(id) {
            Some(i) => {
                let mut row = store.brands.remove(i);
                row.products.push(Some(self.id));
                store.brands.insert(i, row);
                proof {
                    lemma_remove_insert(brands0, i as int, store.brands@[i as int]);
                    assert(brand_ids(store.brands@) =~= brand_ids(brands0));
                    assert forall|j: int|
                        0 <= j < brands0.len() && (#[trigger] brands0[j]).id == id && j != i as int
                        implies false by {
                        assert(brand_ids(brands0)[j] == brand_ids(brands0)[i as int]);
                    }
                }
                Ok(())
            },
            None => Err(Error::NotFound),
        }
    }

    /// Detach this product from a supplier: every link to it leaves the
    /// supplier's array.
    pub fn remove_supplier(self, store: &mut Store, id: i32) -> (r: Result<(), Error>)
        requires
            old(store).wf(),
        ensures
            final(store).wf(),
            match r {
                Ok(()) => {
                    &&& old(store).has_supplier(id)
                    &&& final(store).suppliers@.len() == old(store).suppliers@.len()
                    &&& forall|j: int|
                        0 <= j < old(store).suppliers@.len() && (#[trigger] old(
                            store,
                        ).suppliers@[j]).id != id ==> final(store).suppliers@[j] == old(
                            store,
                        ).suppliers@[j]
                    &&& forall|j: int|
                        0 <= j < old(store).suppliers@.len() && (#[trigger] old(
                            store,
                        ).suppliers@[j]).id == id ==> {
                            let n = final(store).suppliers@[j];
                            let o = old(store).suppliers@[j];
                            n.id == o.id && n.name == o.name && n.phone_number == o.phone_number
                                && n.email == o.email && n.products@ == detach_ids(
                                o.products@,
                                self.id,
                            )
                        }
                },
                Err(e) => e == Error::NotFound && !old(store).has_supplier(id)
                    && final(store).suppliers == old(store).suppliers,
            },
            final(store).users == old(store).users,
            final(store).permissions == old(store).permissions,
            final(store).preferences == old(store).preferences,
            final(store).products == old(store).products,
            final(store).categories == old(store).categories,
            final(store).brands == old(store).brands,
            final(store).pending_orders == old(store).pending_orders,
            final(store).received_orders == old(store).received_orders,
    {
        let ghost sups0 = store.suppliers@;
        match store.find_supplier(id) {
            Some(i) => {
                let row = store.suppliers.remove(i);
                let pruned = detach_entries(&row.products, self.id);
                let row2 = Supplier {
                    id: row.id,
                    products: pruned,
                    name: row.name,
                    phone_number: row.phone_number,
                    email: row.email,
                };
                store.suppliers.insert(i, row2);
                proof {
                    lemma_remove_insert(sups0, i as int, store.suppliers@[i as int]);
                    assert(supplier_ids(store.suppliers@) =~= supplier_ids(sups0));
                    assert forall|j: int|
                        0 <= j < sups0.len() && (#[trigger] sups0[j]).id == id && j != i as int
                        implies false by {
                        assert(supplier_ids(sups0)[j] == supplier_ids(sups0)[i as int]);
                    }
                }
                Ok(())
            },
            None => Err(Error::NotFound),
        }
    }

    /// Detach this product from a category.
    pub fn remove_category(self, store: &mut Store, id: i32) -> (r: Result<(), Error>)
        requires
            old(store).wf(),
        ensures
            final(store).wf(),
            match r {
                Ok(()) => {
                    &&& old(store).has_category(id)
                    &&& final(store).categories@.len() == old(store).categories@.len()
                    &&& forall|j: int|
                        0 <= j < old(store).categories@.len() && (#[trigger] old(
                            store,
                        ).categories@[j]).id != id ==> final(store).categories@[j] == old(
                            store,
                        ).categories@[j]
                    &&& forall|j: int|
                        0 <= j < old(store).categories@.len() && (#[trigger] old(
                            store,
                        ).categories@[j]).id == id ==> {
                            let n = final(store).categories@[j];
                            let o = old(store).categories@[j];
                            n.id == o.id && n.name == o.name && n.products@ == detach_ids(
                                o.products@,
                                self.id,
                            )
                        }
                },
                Err(e) => e == Error::NotFound && !old(store).has_category(id)
                    && final(store).categories == old(store).categories,
            },
            final(store).users == old(store).users,
            final(store).permissions == old(store).permissions,
            final(store).preferences == old(store).preferences,
            final(store).products == old(store).products,
            final(store).suppliers == old(store).suppliers,
            final(store).brands == old(store).brands,
            final(store).pending_orders == old(store).pending_orders,
            final(store).received_orders == old(store).received_orders,
    {
        let ghost cats0 = store.categories@;
        match store.find_category(id) {
            Some(i) => {
                let row = store.categories.remove(i);
                let pruned = detach_entries(&row.products, self.id);
                let row2 = Category { id: row.id, products: pruned, name: row.name };
                store.categories.insert(i, row2);
                proof {
                    lemma_remove_insert(cats0, i as int, store.categories@[i as int]);
                    assert(category_ids(store.categories@) =~= category_ids(cats0));
                    assert forall|j: int|
                        0 <= j < cats0.len() && (#[trigger] cats0[j]).id == id && j != i as int
                        implies false by {
                        assert(category_ids(cats0)[j] == category_ids(cats0)[i as int]);
                    }
                }
                Ok(())
            },
            None => Err(Error::NotFound),
        }
    }

    /// Detach this product from a brand.
    pub fn remove_brand(self, store: &mut Store, id: i32) -> (r: Result<(), Error>)
        requires
            old(store).wf(),
        ensures
            final(store).wf(),
            match r {
                Ok(()) => {
                    &&& old(store).has_brand(id)
                    &&& final(store).brands@.len() == old(store).brands@.len()
                    &&& forall|j: int|
                        0 <= j < old(store).brands@.len() && (#[trigger] old(
                            store,
                        ).brands@[j]).id != id ==> final(store).brands@[j] == old(
                            store,
                        ).brands@[j]
                    &&& forall|j: int|
                        0 <= j < old(store).brands@.len() && (#[trigger] old(
                            store,
                        ).brands@[j]).id == id ==> {
                            let n = final(store).brands@[j];
                            let o = old(store).brands@[j];
                            n.id == o.id && n.name == o.name && n.products@ == detach_ids(
                                o.products@,
                                self.id,
                            )
                        }
                },
                Err(e) => e == Error::NotFound && !old(store).has_brand(id) && final(store).brands
                    == old(store).brands,
            },
            final(store).users == old(store).users,
            final(store).permissions == old(store).permissions,
            final(store).preferences == old(store).preferences,
            final(store).products == old(store).products,
            final(store).categories == old(store).categories,
            final(store).suppliers == old(store).suppliers,
            final(store).pending_orders == old(store).pending_orders,
            final(store).received_orders == old(store).received_orders,
    {
        let ghost brands0 = store.brands@;
        match store.find_brand(id) {
            Some(i) => {
                let row = store.brands.remove(i);
                let pruned = detach_entries(&row.products, self.id);
                let row2 = Brand { id: row.id, name: row.name, products: pruned };
                store.brands.insert(i, row2);
                proof {
                    lemma_remove_insert(brands0, i as int, store.brands@[i as int]);
                    assert(brand_ids(store.brands@) =~= brand_ids(brands0));
                    assert forall|j: int|
                        0 <= j < brands0.len() && (#[trigger] brands0[j]).id == id && j != i as int
                        implies false by {
                        assert(brand_ids(brands0)[j] == brand_ids(brands0)[i as int]);
                    }
                }
                Ok(())
            },
            None => Err(Error::NotFound),
        }
    }

    /// Delete this product everywhere: both order tables lose every row
    /// that references it, every supplier, category and brand loses every
    /// link to it, and then the product row itself goes.
    #[verifier::loop_isolation(false)]
    pub fn delete(self, store: &mut Store)
        requires
            old(store).wf(),
        ensures
            final(store).wf(),
            final(store).pending_orders@ == old(store).pending_orders@.filter(
                |o: PendingOrder| o.product_id != self.id,
            ),
            final(store).received_orders@ == old(store).received_orders@.filter(
                |o: ReceivedOrder| o.product_id != self.id,
            ),
            final(store).products@ == old(store).products@.filter(|p: Product| p.id != self.id),
            !final(store).has_product(self.id),
            final(store).suppliers@.len() == old(store).suppliers@.len(),
            forall|j: int|
                0 <= j < old(store).suppliers@.len() ==> {
                    let n = #[trigger] final(store).suppliers@[j];
                    let o = old(store).suppliers@[j];
                    n.id == o.id && n.name == o.name && n.phone_number == o.phone_number
                        && n.email == o.email && n.products@ == detach_ids(o.products@, self.id)
                        && !lists_product(n.products@, self.id)
                },
            final(store).categories@.len() == old(store).categories@.len(),
            forall|j: int|
                0 <= j < old(store).categories@.len() ==> {
                    let n = #[trigger] final(store).categories@[j];
                    let o = old(store).categories@[j];
                    n.id == o.id && n.name == o.name && n.products@ == detach_ids(
                        o.products@,
                        self.id,
                    ) && !lists_product(n.products@, self.id)
                },
            final(store).brands@.len() == old(store).brands@.len(),
            forall|j: int|
                0 <= j < old(store).brands@.len() ==> {
                    let n = #[trigger] final(store).brands@[j];
                    let o = old(store).brands@[j];
                    n.id == o.id && n.name == o.name && n.products@ == detach_ids(
                        o.products@,
                        self.id,
                    ) && !lists_product(n.products@, self.id)
                },
            final(store).users == old(store).users,
            final(store).permissions == old(store).permissions,
            final(store).preferences == old(store).preferences,
    {
        broadcast use vstd::seq::Seq::lemma_filter_push;

        let id = self.id;
        let ghost pend0 = store.pending_orders@;
        let mut kept_pending: Vec<PendingOrder> = Vec::new();
        let mut k: usize = 0;
        while k < store.pending_orders.len()
            invariant
                k <= pend0.len(),
                kept_pending@ == pend0.subrange(0, k as int).filter(
                    |o: PendingOrder| o.product_id != id,
                ),
            decreases pend0.len() - k,
        {
            let o = store.pending_orders[k];
            if o.product_id != id {
                kept_pending.push(o);
            }
            proof {
                assert(pend0.subrange(0, k + 1) =~= pend0.subrange(0, k as int).push(
                    pend0[k as int],
                ));
            }
            k += 1;
        }
        proof {
            assert(pend0.subrange(0, pend0.len() as int) =~= pend0);
        }
        store.pending_orders = kept_pending;

        let ghost recv0 = store.received_orders@;
        let mut kept_received: Vec<ReceivedOrder> = Vec::new();
        let mut k: usize = 0;
        while k < store.received_orders.len()
            invariant
                k <= recv0.len(),
                kept_received@ == recv0.subrange(0, k as int).filter(
                    |o: ReceivedOrder| o.product_id != id,
                ),
            decreases recv0.len() - k,
        {
            let o = store.received_orders[k];
            if o.product_id != id {
                kept_received.push(o);
            }
            proof {
                assert(recv0.subrange(0, k + 1) =~= recv0.subrange(0, k as int).push(
                    recv0[k as int],
                ));
            }
            k += 1;
        }
        proof {
            assert(recv0.subrange(0, recv0.len() as int) =~= recv0);
        }
        store.received_orders = kept_received;

        let ghost sups0 = store.suppliers@;
        let ghost mid1 = *store;
        let mut k: usize = 0;
        while k < store.suppliers.len()
            invariant
                k <= sups0.len(),
                store.users == mid1.users,
                store.permissions == mid1.permissions,
                store.preferences == mid1.preferences,
                store.products == mid1.products,
                store.categories == mid1.categories,
                store.brands == mid1.brands,
                store.pending_orders == mid1.pending_orders,
                store.received_orders == mid1.received_orders,
                store.suppliers@.len() == sups0.len(),
                forall|j: int|
                    0 <= j < k ==> {
                        let n = #[trigger] store.suppliers@[j];
                        let o = sups0[j];
                        n.id == o.id && n.name == o.name && n.phone_number == o.phone_number
                            && n.email == o.email && n.products@ == detach_ids(o.products@, id)
                    },
                forall|j: int| k <= j < sups0.len() ==> store.suppliers@[j] == sups0[j],
            decreases sups0.len() - k,
        {
            let ghost pre = store.suppliers@;
            let row = store.suppliers.remove(k);
            let pruned = detach_entries(&row.products, id);
            let row2 = Supplier {
                id: row.id,
                products: pruned,
                name: row.name,
                phone_number: row.phone_number,
                email: row.email,
            };
            store.suppliers.insert(k, row2);
            proof {
                lemma_remove_insert(pre, k as int, store.suppliers@[k as int]);
            }
            k += 1;
        }

        let ghost cats0 = store.categories@;
        let ghost mid2 = *store;
        let mut k: usize = 0;
        while k < store.categories.len()
            invariant
                k <= cats0.len(),
                store.users == mid2.users,
                store.permissions == mid2.permissions,
                store.preferences == mid2.preferences,
                store.products == mid2.products,
                store.suppliers == mid2.suppliers,
                store.brands == mid2.brands,
                store.pending_orders == mid2.pending_orders,
                store.received_orders == mid2.received_orders,
                store.categories@.len() == cats0.len(),
                forall|j: int|
                    0 <= j < k ==> {
                        let n = #[trigger] store.categories@[j];
                        let o = cats0[j];
                        n.id == o.id && n.name == o.name && n.products@ == detach_ids(
                            o.products@,
                            id,
                        )
                    },
                forall|j: int| k <= j < cats0.len() ==> store.categories@[j] == cats0[j],
            decreases cats0.len() - k,
        {
            let ghost pre = store.categories@;
            let row = store.categories.remove(k);
            let pruned = detach_entries(&row.products, id);
            let row2 = Category { id: row.id, products: pruned, name: row.name };
            store.categories.insert(k, row2);
            proof {
                lemma_remove_insert(pre, k as int, store.categories@[k as int]);
            }
            k += 1;
        }

        let ghost brands0 = store.brands@;
        let ghost mid3 = *store;
        let mut k: usize = 0;
        while k < store.brands.len()
            invariant
                k <= brands0.len(),
                store.users == mid3.users,
                store.permissions == mid3.permissions,
                store.preferences == mid3.preferences,
                store.products == mid3.products,
                store.suppliers == mid3.suppliers,
                store.categories == mid3.categories,
                store.pending_orders == mid3.pending_orders,
                store.received_orders == mid3.received_orders,
                store.brands@.len() == brands0.len(),
                forall|j: int|
                    0 <= j < k ==> {
                        let n = #[trigger] store.brands@[j];
                        let o = brands0[j];
                        n.id == o.id && n.name == o.name && n.products@ == detach_ids(
                            o.products@,
                            id,
                        )
                    },
                forall|j: int| k <= j < brands0.len() ==> store.brands@[j] == brands0[j],
            decreases brands0.len() - k,
        {
            let ghost pre = store.brands@;
            let row = store.brands.remove(k);
            let pruned = detach_entries(&row.products, id);
            let row2 = Brand { id: row.id, name: row.name, products: pruned };
            store.brands.insert(k, row2);
            proof {
                lemma_remove_insert(pre, k as int, store.brands@[k as int]);
            }
            k += 1;
        }

        let ghost prods0 = store.products@;
        match store.find_product(id) {
            Some(i) => {
                let _ = store.products.remove(i);
                proof {
                    assert forall|j: int| 0 <= j < prods0.len() && j != i as int
                        implies (|p: Product| p.id != id)(#[trigger] prods0[j]) by {
                        assert(product_ids(prods0)[j] != product_ids(prods0)[i as int]);
                    }
                    lemma_filter_single_out(prods0, |p: Product| p.id != id, i as int);
                }
            },
            None => {
                proof {
                    assert forall|j: int| 0 <= j < prods0.len()
                        implies (|p: Product| p.id != id)(#[trigger] prods0[j]) by {
                        assert(product_ids(prods0)[j] == prods0[j].id);
                    }
                    lemma_filter_all_true(prods0, |p: Product| p.id != id);
                }
            },
        }

        proof {
            let kp = |o: PendingOrder| o.id;
            assert(pend0.map_values(kp) =~= pending_ids(pend0));
            lemma_filter_ids_ok(pend0, |o: PendingOrder| o.product_id != id, kp);
            assert(store.pending_orders@.map_values(kp) =~= pending_ids(store.pending_orders@));

            let kr = |o: ReceivedOrder| o.id;
            assert(recv0.map_values(kr) =~= received_ids(recv0));
            lemma_filter_ids_ok(recv0, |o: ReceivedOrder| o.product_id != id, kr);
            assert(store.received_orders@.map_values(kr) =~= received_ids(store.received_orders@));

            let kq = |p: Product| p.id;
            assert(prods0.map_values(kq) =~= product_ids(prods0));
            lemma_filter_ids_ok(prods0, |p: Product| p.id != id, kq);
            assert(store.products@.map_values(kq) =~= product_ids(store.products@));
            assert forall|j: int| 0 <= j < product_ids(store.products@).len()
                implies product_ids(store.products@)[j] != id by {
                assert(store.products@[j].id != id);
            }

            assert(supplier_ids(store.suppliers@) =~= supplier_ids(sups0));
            assert(category_ids(store.categories@) =~= category_ids(cats0));
            assert(brand_ids(store.brands@) =~= brand_ids(brands0));

            assert forall|j: int| 0 <= j < sups0.len()
                implies !lists_product((#[trigger] store.suppliers@[j]).products@, id) by {
                crate::assoc::lemma_detach_clears(sups0[j].products@, id);
            }
            assert forall|j: int| 0 <= j < cats0.len()
                implies !lists_product((#[trigger] store.categories@[j]).products@, id) by {
                crate::assoc::lemma_detach_clears(cats0[j].products@, id);
            }
            assert forall|j: int| 0 <= j < brands0.len()
                implies !lists_product((#[trigger] store.brands@[j]).products@, id) by {
                crate::assoc::lemma_detach_clears(brands0[j].products@, id);
            }
        }
    }

    /// One page of the product table, in table order.
    #[verifier::loop_isolation(false)]
    pub fn get_all(store: &Store, limit: i64, offset: i64) -> (r: Vec<Product>)
        requires
            0 <= limit,
            0 <= offset,
        ensures
            r@.len() == min(
                limit as int,
                store.products@.len() - min(offset as int, store.products@.len() as int),
            ),
            forall|j: int|
                0 <= j < r@.len() ==> (#[trigger] r@[j])@ == store.products@[min(
                    offset as int,
                    store.products@.len() as int,
                ) + j]@,
    {
        let len = store.products.len();
        let start: usize = if offset as u64 >= len as u64 {
            len
        } else {
            offset as usize
        };
        let remaining = len - start;
        let take: usize = if limit as u64 >= remaining as u64 {
            remaining
        } else {
            limit as usize
        };
        let mut r: Vec<Product> = Vec::new();
        let mut k: usize = 0;
        while k < take
            invariant
                k <= take,
                take == min(limit as int, store.products@.len() - start),
                start == min(offset as int, store.products@.len() as int),
                start + take <= store.products@.len(),
                r@.len() == k,
                forall|j: int|
                    0 <= j < k ==> (#[trigger] r@[j])@ == store.products@[start + j]@,
            decreases take - k,
        {
            proof {
                assert(start + k < store.products@.len());
            }
            r.push(store.products[start + k].clone());
            k += 1;
        }
        r
    }

    /// The name, upc and id of every product, in table order.
    pub fn get_names(store: &Store) -> (r: Vec<(String, String, i32)>)
        ensures
            r@.len() == store.products@.len(),
            forall|j: int|
                0 <= j < r@.len() ==> (#[trigger] r@[j]).0@ == store.products@[j].name@
                    && r@[j].1@ == store.products@[j].upc@ && r@[j].2 == store.products@[j].id,
    {
        let mut r: Vec<(String, String, i32)> = Vec::new();
        let mut k: usize = 0;
        while k < store.products.len()
            invariant
                k <= store.products@.len(),
                r@.len() == k,
                forall|j: int|
                    0 <= j < k ==> (#[trigger] r@[j]).0@ == store.products@[j].name@
                        && r@[j].1@ == store.products@[j].upc@ && r@[j].2
                        == store.products@[j].id,
            decreases store.products@.len() - k,
        {
            r.push(
                (store.products[k].name.clone(), store.products[k].upc.clone(), store.products[k].id),
            );
            k += 1;
        }
        r
    }

    /// Every category whose array lists this product.
    #[verifier::loop_isolation(false)]
    pub fn get_categories(&self, store: &Store) -> (r: Vec<Category>)
        ensures
            ({
                let f = store.categories@.filter(
                    |c: Category| lists_product(c.products@, self.id),
                );
                r@.len() == f.len() && forall|j: int|
                    0 <= j < f.len() ==> (#[trigger] r@[j])@ == f[j]@
            }),
    {
        broadcast use vstd::seq::Seq::lemma_filter_push;

        let mut r: Vec<Category> = Vec::new();
        let mut k: usize = 0;
        while k < store.categories.len()
            invariant
                k <= store.categories@.len(),
                ({
                    let f = store.categories@.subrange(0, k as int).filter(
                        |c: Category| lists_product(c.products@, self.id),
                    );
                    r@.len() == f.len() && forall|j: int|
                        0 <= j < f.len() ==> (#[trigger] r@[j])@ == f[j]@
                }),
            decreases store.categories@.len() - k,
        {
            if lists_entry(&store.categories[k].products, self.id) {
                r.push(store.categories[k].clone());
            }
            proof {
                assert(store.categories@.subrange(0, k + 1) =~= store.categories@.subrange(
                    0,
                    k as int,
                ).push(store.categories@[k as int]));
            }
            k += 1;
        }
        proof {
            assert(store.categories@.subrange(0, store.categories@.len() as int)
                =~= store.categories@);
        }
        r
    }

    /// Every supplier whose array lists this product.
    #[verifier::loop_isolation(false)]
    pub fn get_suppliers(&self, store: &Store) -> (r: Vec<Supplier>)
        ensures
            ({
                let f = store.suppliers@.filter(
                    |s: Supplier| lists_product(s.products@, self.id),
                );
                r@.len() == f.len() && forall|j: int|
                    0 <= j < f.len() ==> (#[trigger] r@[j])@ == f[j]@
            }),
    {
        broadcast use vstd::seq::Seq::lemma_filter_push;

        let mut r: Vec<Supplier> = Vec::new();
        let mut k: usize = 0;
        while k < store.suppliers.len()
            invariant
                k <= store.suppliers@.len(),
                ({
                    let f = store.suppliers@.subrange(0, k as int).filter(
                        |s: Supplier| lists_product(s.products@, self.id),
                    );
                    r@.len() == f.len() && forall|j: int|
                        0 <= j < f.len() ==> (#[trigger] r@[j])@ == f[j]@
                }),
            decreases store.suppliers@.len() - k,
        {
            if lists_entry(&store.suppliers[k].products, self.id) {
                r.push(store.suppliers[k].clone());
            }
            proof {
                assert(store.suppliers@.subrange(0, k + 1) =~= store.suppliers@.subrange(
                    0,
                    k as int,
                ).push(store.suppliers@[k as int]));
            }
            k += 1;
        }
        proof {
            assert(store.suppliers@.subrange(0, store.suppliers@.len() as int)
                =~= store.suppliers@);
        }
        r
    }

    /// The first brand whose array lists this product; none counts as
    /// "the product has no brand", not as an error.
    pub fn get_brand(&self, store: &Store) -> (r: Option<Brand>)
        ensures
            match r {
                Some(b) => exists|j: int|
                    #![trigger store.brands@[j]]
                    0 <= j < store.brands@.len() && lists_product(
                        store.brands@[j].products@,
                        self.id,
                    ) && b@ == store.brands@[j]@ && (forall|k: int|
                        0 <= k < j ==> !lists_product(
                            (#[trigger] store.brands@[k]).products@,
                            self.id,
                        )),
                None => forall|j: int|
                    0 <= j < store.brands@.len() ==> !lists_product(
                        (#[trigger] store.brands@[j]).products@,
                        self.id,
                    ),
            },
    {
        let mut k: usize = 0;
        while k < store.brands.len()
            invariant
                k <= store.brands@.len(),
                forall|j: int|
                    0 <= j < k ==> !lists_product(
                        (#[trigger] store.brands@[j]).products@,
                        self.id,
                    ),
            decreases store.brands@.len() - k,
        {
            if lists_entry(&store.brands[k].products, self.id) {
                return Some(store.brands[k].clone());
            }
            k += 1;
        }
        None
    }
}

/// Every owner id a builder names must exist before the commit touches
/// the store.
pub open spec fn builder_refs_ok(
    s: Store,
    brand: Option<i32>,
    cats: Seq<i32>,
    sups: Seq<i32>,
) -> bool {
    &&& match brand {
        Some(b) => s.has_brand(b),
        None => true,
    }
    &&& forall|i: int| 0 <= i < cats.len() ==> s.has_category(#[trigger] cats[i])
    &&& forall|i: int| 0 <= i < sups.len() ==> s.has_supplier(#[trigger] sups[i])
}

/// Accumulates a product and its initial associations before the commit.
#[derive(Debug, PartialEq, Eq)]
pub struct ProductBuilder {
    pub upc: String,
    pub name: String,
    pub description: Option<String>,
    pub measure_by_weight: bool,
    pub cost_price_per_unit: i64,
    pub selling_price_per_unit: i64,
    pub case_size: Option<i32>,
    pub categories: Vec<i32>,
    pub suppliers: Vec<i32>,
    pub brand: Option<i32>,
    pub buy_level: Option<i64>,
}

impl ProductBuilder {
    /// Start a product from its required fields.
    pub fn new(
        upc: &str,
        name: &str,
        measure_by_weight: bool,
        cost_price_per_unit: i64,
        selling_price_per_unit: i64,
    ) -> (r: Self)
        ensures
            r.upc@ == upc@,
            r.name@ == name@,
            r.description is None,
            r.measure_by_weight == measure_by_weight,
            r.cost_price_per_unit == cost_price_per_unit,
            r.selling_price_per_unit == selling_price_per_unit,
            r.case_size is None,
            r.categories@ == Seq::<i32>::empty(),
            r.suppliers@ == Seq::<i32>::empty(),
            r.brand is None,
            r.buy_level is None,
    {
        Self {
            upc: upc.to_owned(),
            name: name.to_owned(),
            description: None,
            measure_by_weight,
            cost_price_per_unit,
            selling_price_per_unit,
            categories: Vec::new(),
            case_size: None,
            suppliers: Vec::new(),
            brand: None,
            buy_level: None,
        }
    }

    /// Replace the category list.
    pub fn with_categories(self, categories: &[i32]) -> (r: Self)
        ensures
            r == (ProductBuilder { categories: r.categories, ..self }),
            r.categories@ == categories@,
    {
        ProductBuilder { categories: vstd::slice::slice_to_vec(categories), ..self }
    }

    /// Replace the supplier list.
    pub fn with_suppliers(self, suppliers: &[i32]) -> (r: Self)
        ensures
            r == (ProductBuilder { suppliers: r.suppliers, ..self }),
            r.suppliers@ == suppliers@,
    {
        ProductBuilder { suppliers: vstd::slice::slice_to_vec(suppliers), ..self }
    }

    /// Set the brand.
    pub fn with_brand(self, brand: i32) -> (r: Self)
        ensures
            r == (ProductBuilder { brand: Some(brand), ..self }),
    {
        ProductBuilder { brand: Some(brand), ..self }
    }

    /// Set the reorder threshold.
    pub fn with_buy_level(self, buy_level: i64) -> (r: Self)
        ensures
            r == (ProductBuilder { buy_level: Some(buy_level), ..self }),
    {
        ProductBuilder { buy_level: Some(buy_level), ..self }
    }

    /// Set the description.
    pub fn with_description(self, description: &str) -> (r: Self)
        ensures
            r == (ProductBuilder { description: r.description, ..self }),
            r.description matches Some(d) && d@ == description@,
    {
        ProductBuilder { description: Some(description.to_owned()), ..self }
    }

    /// Set the case size.
    pub fn with_case_size(self, case_size: i32) -> (r: Self)
        ensures
            r == (ProductBuilder { case_size: Some(case_size), ..self }),
    {
        ProductBuilder { case_size: Some(case_size), ..self }
    }

    /// Commit the product: allocate the next product id, write the row
    /// with zero stock, and append one link to the chosen brand and to
    /// each listed category and supplier, in list order. If any named
    /// owner is missing, nothing is written at all.
    #[verifier::loop_isolation(false)]
    pub fn build(self, store: &mut Store) -> (r: Result<i32, Error>)
        requires
            old(store).wf(),
            max_key(product_ids(old(store).products@)) + 1 < i32::MAX,
        ensures
            final(store).wf(),
            match r {
                Ok(pid) => {
                    &&& builder_refs_ok(*old(store), self.brand, self.categories@, self.suppliers@)
                    &&& pid == max_key(product_ids(old(store).products@)) + 1
                    &&& !old(store).has_product(pid)
                    &&& final(store).products@.len() == old(store).products@.len() + 1
                    &&& forall|j: int|
                        0 <= j < old(store).products@.len() ==> final(store).products@[j] == old(
                            store,
                        ).products@[j]
                    &&& {
                        let p = final(store).products@.last();
                        &&& p.id == pid
                        &&& p.upc == self.upc
                        &&& p.name == self.name
                        &&& p.description@ == (match self.description {
                            Some(d) => d@,
                            None => Seq::<char>::empty(),
                        })
                        &&& p.amount == 0
                        &&& p.case_size == self.case_size
                        &&& p.measure_by_weight == self.measure_by_weight
                        &&& p.cost_price_per_unit == self.cost_price_per_unit
                        &&& p.selling_price_per_unit == self.selling_price_per_unit
                        &&& p.sale_end is None
                        &&& p.sale_price is None
                        &&& p.buy_level == self.buy_level
                    }
                    &&& final(store).brands@.len() == old(store).brands@.len()
                    &&& forall|j: int|
                        0 <= j < old(store).brands@.len() ==> {
                            let n = #[trigger] final(store).brands@[j];
                            let o = old(store).brands@[j];
                            n.id == o.id && n.name == o.name && n.products@ == (
                            if self.brand == Some(o.id) {
                                attach_ids(o.products@, pid)
                            } else {
                                o.products@
                            })
                        }
                    &&& final(store).categories@.len() == old(store).categories@.len()
                    &&& forall|j: int|
                        0 <= j < old(store).categories@.len() ==> {
                            let n = #[trigger] final(store).categories@[j];
                            let o = old(store).categories@[j];
                            n.id == o.id && n.name == o.name && n.products@ == o.products@
                                + repeated(pid, count_id(self.categories@, o.id))
                        }
                    &&& final(store).suppliers@.len() == old(store).suppliers@.len()
                    &&& forall|j: int|
                        0 <= j < old(store).suppliers@.len() ==> {
                            let n = #[trigger] final(store).suppliers@[j];
                            let o = old(store).suppliers@[j];
                            n.id == o.id && n.name == o.name && n.phone_number == o.phone_number
                                && n.email == o.email && n.products@ == o.products@ + repeated(
                                pid,
                                count_id(self.suppliers@, o.id),
                            )
                        }
                    &&& final(store).users == old(store).users
                    &&& final(store).permissions == old(store).permissions
                    &&& final(store).preferences == old(store).preferences
                    &&& final(store).pending_orders == old(store).pending_orders
                    &&& final(store).received_orders == old(store).received_orders
                },
                Err(e) => {
                    &&& e == Error::NotFound
                    &&& !builder_refs_ok(
                        *old(store),
                        self.brand,
                        self.categories@,
                        self.suppliers@,
                    )
                    &&& *final(store) == *old(store)
                },
            },
    {
        if let Some(b) = self.brand {
            if store.find_brand(b).is_none() {
                return Err(Error::NotFound);
            }
        }
        let mut m: usize = 0;
        while m < self.categories.len()
            invariant
                m <= self.categories@.len(),
                forall|i: int| 0 <= i < m ==> store.has_category(#[trigger] self.categories@[i]),
            decreases self.categories@.len() - m,
        {
            if store.find_category(self.categories[m]).is_none() {
                return Err(Error::NotFound);
            }
            m += 1;
        }
        let mut m: usize = 0;
        while m < self.suppliers.len()
            invariant
                m <= self.suppliers@.len(),
                forall|i: int| 0 <= i < m ==> store.has_supplier(#[trigger] self.suppliers@[i]),
            decreases self.suppliers@.len() - m,
        {
            if store.find_supplier(self.suppliers[m]).is_none() {
                return Err(Error::NotFound);
            }
            m += 1;
        }

        let pid = store.next_product_id();
        let ghost prods0 = store.products@;
        proof {
            lemma_max_key_bound(product_ids(prods0));
        }
        let description = match self.description {
            Some(d) => d,
            None => String::new(),
        };
        let row = Product {
            id: pid,
            upc: self.upc,
            name: self.name,
            amount: 0,
            case_size: self.case_size,
            description,
            cost_price_per_unit: self.cost_price_per_unit,
            selling_price_per_unit: self.selling_price_per_unit,
            measure_by_weight: self.measure_by_weight,
            sale_end: None,
            sale_price: None,
            buy_level: self.buy_level,
        };
        store.products.push(row);
        proof {
            assert(product_ids(store.products@) =~= product_ids(prods0).push(pid));
            lemma_push_fresh_id(product_ids(prods0), pid);
        }

        let ghost brands0 = store.brands@;
        if let Some(b) = self.brand {
            match store.find_brand(b) {
                Some(i) => {
                    let mut brow = store.brands.remove(i);
                    brow.products.push(Some(pid));
                    store.brands.insert(i, brow);
                    proof {
                        lemma_remove_insert(brands0, i as int, store.brands@[i as int]);
                        assert(brand_ids(store.brands@) =~= brand_ids(brands0));
                        assert forall|j: int|
                            0 <= j < brands0.len() && (#[trigger] brands0[j]).id == b && j
                                != i as int implies false by {
                            assert(brand_ids(brands0)[j] == brand_ids(brands0)[i as int]);
                        }
                    }
                },
                None => {
                    proof {
                        assert(false);
                    }
                },
            }
        }

        let ghost cats0 = store.categories@;
        let ghost mid2 = *store;
        let mut m: usize = 0;
        while m < self.categories.len()
            invariant
                m <= self.categories@.len(),
                store.users == mid2.users,
                store.permissions == mid2.permissions,
                store.preferences == mid2.preferences,
                store.products == mid2.products,
                store.suppliers == mid2.suppliers,
                store.brands == mid2.brands,
                store.pending_orders == mid2.pending_orders,
                store.received_orders == mid2.received_orders,
                store.categories@.len() == cats0.len(),
                forall|j: int|
                    0 <= j < cats0.len() ==> {
                        let n = #[trigger] store.categories@[j];
                        let o = cats0[j];
                        n.id == o.id && n.name == o.name && n.products@ == o.products@ + repeated(
                            pid,
                            count_id(self.categories@.subrange(0, m as int), o.id),
                        )
                    },
            decreases self.categories@.len() - m,
        {
            let cid = self.categories[m];
            proof {
                assert(category_ids(store.categories@) =~= category_ids(cats0));
            }
            match store.find_category(cid) {
                Some(i) => {
                    let ghost pre = store.categories@;
                    let mut crow = store.categories.remove(i);
                    crow.products.push(Some(pid));
                    store.categories.insert(i, crow);
                    proof {
                        lemma_remove_insert(pre, i as int, store.categories@[i as int]);
                        assert forall|j: int|
                            0 <= j < cats0.len() && (#[trigger] cats0[j]).id == cid && j
                                != i as int implies false by {
                            assert(category_ids(cats0)[j] == category_ids(cats0)[i as int]);
                        }
                        assert forall|j: int| 0 <= j < cats0.len() implies {
                            let n = #[trigger] store.categories@[j];
                            let o = cats0[j];
                            n.id == o.id && n.name == o.name && n.products@ == o.products@
                                + repeated(
                                pid,
                                count_id(self.categories@.subrange(0, m + 1), o.id),
                            )
                        } by {
                            crate::assoc::lemma_count_id_push(
                                self.categories@.subrange(0, m as int),
                                cats0[j].id,
                                cid,
                            );
                            assert(self.categories@.subrange(0, m + 1) =~= self.categories@
                                .subrange(0, m as int).push(cid));
                            let c = count_id(self.categories@.subrange(0, m as int), cats0[j].id);
                            if j == i as int {
                                assert((cats0[j].products@ + repeated(pid, c)).push(Some(pid))
                                    =~= cats0[j].products@ + repeated(pid, (c + 1) as nat));
                            }
                        }
                    }
                },
                None => {
                    proof {
                        assert(store.has_category(cid));
                        assert(false);
                    }
                },
            }
            m += 1;
        }
        proof {
            assert(self.categories@.subrange(0, self.categories@.len() as int)
                =~= self.categories@);
        }

        let ghost sups0 = store.suppliers@;
        let ghost mid3 = *store;
        let mut m: usize = 0;
        while m < self.suppliers.len()
            invariant
                m <= self.suppliers@.len(),
                store.users == mid3.users,
                store.permissions == mid3.permissions,
                store.preferences == mid3.preferences,
                store.products == mid3.products,
                store.categories == mid3.categories,
                store.brands == mid3.brands,
                store.pending_orders == mid3.pending_orders,
                store.received_orders == mid3.received_orders,
                store.suppliers@.len() == sups0.len(),
                forall|j: int|
                    0 <= j < sups0.len() ==> {
                        let n = #[trigger] store.suppliers@[j];
                        let o = sups0[j];
                        n.id == o.id && n.name == o.name && n.phone_number == o.phone_number
                            && n.email == o.email && n.products@ == o.products@ + repeated(
                            pid,
                            count_id(self.suppliers@.subrange(0, m as int), o.id),
                        )
                    },
            decreases self.suppliers@.len() - m,
        {
            let sid = self.suppliers[m];
            proof {
                assert(supplier_ids(store.suppliers@) =~= supplier_ids(sups0));
            }
            match store.find_supplier(sid) {
                Some(i) => {
                    let ghost pre = store.suppliers@;
                    let mut srow = store.suppliers.remove(i);
                    srow.products.push(Some(pid));
                    store.suppliers.insert(i, srow);
                    proof {
                        lemma_remove_insert(pre, i as int, store.suppliers@[i as int]);
                        assert forall|j: int|
                            0 <= j < sups0.len() && (#[trigger] sups0[j]).id == sid && j
                                != i as int implies false by {
                            assert(supplier_ids(sups0)[j] == supplier_ids(sups0)[i as int]);
                        }
                        assert forall|j: int| 0 <= j < sups0.len() implies {
                            let n = #[trigger] store.suppliers@[j];
                            let o = sups0[j];
                            n.id == o.id && n.name == o.name && n.phone_number == o.phone_number
                                && n.email == o.email && n.products@ == o.products@ + repeated(
                                pid,
                                count_id(self.suppliers@.subrange(0, m + 1), o.id),
                            )
                        } by {
                            crate::assoc::lemma_count_id_push(
                                self.suppliers@.subrange(0, m as int),
                                sups0[j].id,
                                sid,
                            );
                            assert(self.suppliers@.subrange(0, m + 1) =~= self.suppliers@
                                .subrange(0, m as int).push(sid));
                            let c = count_id(self.suppliers@.subrange(0, m as int), sups0[j].id);
                            if j == i as int {
                                assert((sups0[j].products@ + repeated(pid, c)).push(Some(pid))
                                    =~= sups0[j].products@ + repeated(pid, (c + 1) as nat));
                            }
                        }
                    }
                },
                None => {
                    proof {
                        assert(store.has_supplier(sid));
                        assert(false);
                    }
                },
            }
            m += 1;
        }
        proof {
            assert(self.suppliers@.subrange(0, self.suppliers@.len() as int) =~= self.suppliers@);
            assert(category_ids(store.categories@) =~= category_ids(cats0));
            assert(supplier_ids(store.suppliers@) =~= supplier_ids(sups0));
        }
        Ok(pid)
    }
}

} // verus!
