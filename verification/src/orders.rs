//! The order lifecycle: a pending order is placed, then either deleted or
//! marked received, which writes a fresh row in the received table — under
//! a new, unrelated id — and deletes the pending row. Reverting a received
//! order re-places the originally ordered quantity and discards the
//! receipt data.

use vstd::prelude::*;
use vstd::math::min;
use crate::entities::{PendingOrder, ReceivedOrder};
use crate::error::Error;
use crate::ids::{lemma_max_key_bound, max_key};
use crate::store::{
    Store, ids_ok, lemma_filter_all_true, lemma_filter_ids_ok, lemma_push_fresh_id,
    lemma_remove_insert, pending_ids, received_ids,
};

verus! {

/// Accumulates a pending order before it is committed.
#[derive(Clone, Copy, Debug, PartialEq, Eq, Structural)]
pub struct PendingOrderBuilder {
    pub product_id: i32,
    pub amount: i64,
}

impl PendingOrderBuilder {
    /// Start an order of `amount` units of the product.
    pub fn new(product_id: i32, amount: i64) -> (r: Self)
        ensures
            r.product_id == product_id,
            r.amount == amount,
    {
        Self { product_id, amount }
    }

    /// Commit the order under the next free pending id.
    pub fn build(self, store: &mut Store) -> (r: i32)
        requires
            old(store).wf(),
            max_key(pending_ids(old(store).pending_orders@)) + 1 < i32::MAX,
        ensures
            final(store).wf(),
            r == max_key(pending_ids(old(store).pending_orders@)) + 1,
            !old(store).has_pending(r),
            final(store).pending_orders@ == old(store).pending_orders@.push(
                (PendingOrder { id: r, product_id: self.product_id, amount: self.amount }),
            ),
            final(store).users == old(store).users,
            final(store).permissions == old(store).permissions,
            final(store).preferences == old(store).preferences,
            final(store).products == old(store).products,
            final(store).categories == old(store).categories,
            final(store).suppliers == old(store).suppliers,
            final(store).brands == old(store).brands,
            final(store).received_orders == old(store).received_orders,
    {
        let order_id = store.next_pending_id();
        let ghost pend0 = store.pending_orders@;
        let row = PendingOrder { id: order_id, product_id: self.product_id, amount: self.amount };
        store.pending_orders.push(row);
        proof {
            assert(pending_ids(store.pending_orders@) =~= pending_ids(pend0).push(order_id));
            lemma_push_fresh_id(pending_ids(pend0), order_id);
        }
        order_id
    }
}

impl PendingOrder {
    /// Look a pending order up by primary key.
    pub fn get(store: &Store, id: i32) -> (r: Result<PendingOrder, Error>)
        ensures
            match r {
                Ok(o) => store.has_pending(id) && o.id == id && exists|j: int|
                    0 <= j < store.pending_orders@.len() && o == (
                    #[trigger] store.pending_orders@[j]),
                Err(e) => e == Error::NotFound && !store.has_pending(id),
            },
    {
        match store.find_pending(id) {
            Some(i) => Ok(store.pending_orders[i]),
            None => Err(Error::NotFound),
        }
    }

    /// Overwrite the row whose id matches; a missing id updates nothing.
    pub fn update(self, store: &mut Store)
        requires
            old(store).wf(),
        ensures
            final(store).wf(),
            final(store).pending_orders@.len() == old(store).pending_orders@.len(),
            forall|j: int|
                0 <= j < old(store).pending_orders@.len() && (#[trigger] old(
                    store,
                ).pending_orders@[j]).id != self.id ==> final(store).pending_orders@[j] == old(
                    store,
                ).pending_orders@[j],
            forall|j: int|
                0 <= j < old(store).pending_orders@.len() && (#[trigger] old(
                    store,
                ).pending_orders@[j]).id == self.id ==> final(store).pending_orders@[j] == self,
            final(store).users == old(store).users,
            final(store).permissions == old(store).permissions,
            final(store).preferences == old(store).preferences,
            final(store).products == old(store).products,
            final(store).categories == old(store).categories,
            final(store).suppliers == old(store).suppliers,
            final(store).brands == old(store).brands,
            final(store).received_orders == old(store).received_orders,
    {
        let ghost pend0 = store.pending_orders@;
        let ghost id = self.id;
        match store.find_pending(self.id) {
            Some(i) => {
                let _ = store.pending_orders.remove(i);
                store.pending_orders.insert(i, self);
                proof {
                    lemma_remove_insert(pend0, i as int, store.pending_orders@[i as int]);
                    assert(pending_ids(store.pending_orders@) =~= pending_ids(pend0));
                    assert forall|j: int|
                        0 <= j < pend0.len() && (#[trigger] pend0[j]).id == id
                        implies store.pending_orders@[j] == store.pending_orders@[i as int] by {
                        if j != i as int {
                            assert(pending_ids(pend0)[j] == pending_ids(pend0)[i as int]);
                        }
                    }
                }
            },
            None => {
                proof {
                    assert forall|j: int| 0 <= j < pend0.len()
                        implies (#[trigger] pend0[j]).id != id by {
                        assert(pending_ids(pend0)[j] == pend0[j].id);
                    }
                }
            },
        }
    }

    /// Delete the row whose id matches; a missing id deletes nothing.
    #[verifier::loop_isolation(false)]
    pub fn delete(store: &mut Store, id: i32)
        requires
            old(store).wf(),
        ensures
            final(store).wf(),
            final(store).pending_orders@ == old(store).pending_orders@.filter(
                |o: PendingOrder| o.id != id,
            ),
            old(store).has_pending(id) ==> exists|i: int|
                0 <= i < old(store).pending_orders@.len() && (#[trigger] old(
                    store,
                ).pending_orders@[i]).id == id && final(store).pending_orders@ == old(
                    store,
                ).pending_orders@.remove(i),
            !old(store).has_pending(id) ==> final(store).pending_orders@ == old(
                store,
            ).pending_orders@,
            !final(store).has_pending(id),
            final(store).users == old(store).users,
            final(store).permissions == old(store).permissions,
            final(store).preferences == old(store).preferences,
            final(store).products == old(store).products,
            final(store).categories == old(store).categories,
            final(store).suppliers == old(store).suppliers,
            final(store).brands == old(store).brands,
            final(store).received_orders == old(store).received_orders,
    {
        broadcast use vstd::seq::Seq::lemma_filter_push;

        let ghost pend0 = store.pending_orders@;
        let mut kept: Vec<PendingOrder> = Vec::new();
        let mut k: usize = 0;
        while k < store.pending_orders.len()
            invariant
                k <= pend0.len(),
                kept@ == pend0.subrange(0, k as int).filter(|o: PendingOrder| o.id != id),
            decreases pend0.len() - k,
        {
            let o = store.pending_orders[k];
            if o.id != id {
                kept.push(o);
            }
            proof {
                assert(pend0.subrange(0, k + 1) =~= pend0.subrange(0, k as int).push(
                    pend0[k as int],
                ));
            }
            k += 1;
        }
        proof {
            assert(pend0.subrange(0, pend0.len() as int) =~= pend0);
        }
        store.pending_orders = kept;
        proof {
            if old(store).has_pending(id) {
                let w = choose|w: int|
                    0 <= w < pending_ids(pend0).len() && pending_ids(pend0)[w] == id;
                assert(pend0[w].id == id);
                assert forall|j: int| 0 <= j < pend0.len() && j != w
                    implies (|o: PendingOrder| o.id != id)(#[trigger] pend0[j]) by {
                    assert(pending_ids(pend0)[j] != pending_ids(pend0)[w]);
                }
                crate::store::lemma_filter_single_out(pend0, |o: PendingOrder| o.id != id, w);
            } else {
                assert forall|j: int| 0 <= j < pend0.len()
                    implies (|o: PendingOrder| o.id != id)(#[trigger] pend0[j]) by {
                    assert(pending_ids(pend0)[j] == pend0[j].id);
                }
                lemma_filter_all_true(pend0, |o: PendingOrder| o.id != id);
            }
            let kp = |o: PendingOrder| o.id;
            assert(pend0.map_values(kp) =~= pending_ids(pend0));
            lemma_filter_ids_ok(pend0, |o: PendingOrder| o.id != id, kp);
            assert(store.pending_orders@.map_values(kp) =~= pending_ids(store.pending_orders@));
            assert forall|j: int| 0 <= j < pending_ids(store.pending_orders@).len()
                implies pending_ids(store.pending_orders@)[j] != id by {
                assert(store.pending_orders@[j].id != id);
            }
        }
    }

    /// One page of the pending-order table, in table order.
    #[verifier::loop_isolation(false)]
    pub fn get_all(store: &Store, limit: i64, offset: i64) -> (r: Vec<PendingOrder>)
        requires
            0 <= limit,
            0 <= offset,
        ensures
            r@ == store.pending_orders@.subrange(
                min(offset as int, store.pending_orders@.len() as int),
                min(offset as int, store.pending_orders@.len() as int) + min(
                    limit as int,
                    store.pending_orders@.len() - min(
                        offset as int,
                        store.pending_orders@.len() as int,
                    ),
                ),
            ),
    {
        let len = store.pending_orders.len();
        let start: usize = if offset as u64 >= len as u64 {
            len
        } else {
            offset as usize
        };
        let remaining = len - start;
        let take: usize = if limit as u64 >= remaining as u64 {
            remaining
        } else {
            limit as usize
        };
        let mut r: Vec<PendingOrder> = Vec::new();
        let mut k: usize = 0;
        while k < take
            invariant
                k <= take,
                start + take <= len,
                r@ == store.pending_orders@.subrange(start as int, start + k),
            decreases take - k,
        {
            r.push(store.pending_orders[start + k]);
            proof {
                assert(store.pending_orders@.subrange(start as int, start + k + 1)
                    =~= store.pending_orders@.subrange(start as int, start + k).push(
                    store.pending_orders@[start + k],
                ));
            }
            k += 1;
        }
        r
    }

    /// Move this order from the pending table to the received table: a
    /// fresh received row records the receipt under a new id, and the
    /// pending row is deleted. The ordered quantity travels along as
    /// `gross_amount`.
    pub fn mark_as_received(
        self,
        store: &mut Store,
        date: i64,
        actually_received: i64,
        damaged: i64,
    ) -> (r: ReceivedOrder)
        requires
            old(store).wf(),
            max_key(received_ids(old(store).received_orders@)) + 1 < i32::MAX,
        ensures
            final(store).wf(),
            r == (ReceivedOrder {
                id: (max_key(received_ids(old(store).received_orders@)) + 1) as i32,
                received: Some(date),
                product_id: self.product_id,
                gross_amount: self.amount,
                actually_received,
                damaged,
            }),
            !old(store).has_received(r.id),
            final(store).received_orders@ == old(store).received_orders@.push(r),
            final(store).pending_orders@ == old(store).pending_orders@.filter(
                |o: PendingOrder| o.id != self.id,
            ),
            old(store).has_pending(self.id) ==> exists|i: int|
                0 <= i < old(store).pending_orders@.len() && (#[trigger] old(
                    store,
                ).pending_orders@[i]).id == self.id && final(store).pending_orders@ == old(
                    store,
                ).pending_orders@.remove(i),
            !old(store).has_pending(self.id) ==> final(store).pending_orders@ == old(
                store,
            ).pending_orders@,
            !final(store).has_pending(self.id),
            final(store).users == old(store).users,
            final(store).permissions == old(store).permissions,
            final(store).preferences == old(store).preferences,
            final(store).products == old(store).products,
            final(store).categories == old(store).categories,
            final(store).suppliers == old(store).suppliers,
            final(store).brands == old(store).brands,
    {
        let order_id = store.next_received_id();
        let ghost recv0 = store.received_orders@;
        let row = ReceivedOrder {
            id: order_id,
            received: Some(date),
            product_id: self.product_id,
            gross_amount: self.amount,
            actually_received,
            damaged,
        };
        store.received_orders.push(row);
        proof {
            assert(received_ids(store.received_orders@) =~= received_ids(recv0).push(order_id));
            lemma_push_fresh_id(received_ids(recv0), order_id);
        }
        Self::delete(store, self.id);
        row
    }
}

impl ReceivedOrder {
    /// Look a received order up by primary key.
    pub fn get(store: &Store, id: i32) -> (r: Result<ReceivedOrder, Error>)
        ensures
            match r {
                Ok(o) => store.has_received(id) && o.id == id && exists|j: int|
                    0 <= j < store.received_orders@.len() && o == (
                    #[trigger] store.received_orders@[j]),
                Err(e) => e == Error::NotFound && !store.has_received(id),
            },
    {
        match store.find_received(id) {
            Some(i) => Ok(store.received_orders[i]),
            None => Err(Error::NotFound),
        }
    }

    /// Overwrite the row whose id matches; a missing id updates nothing.
    pub fn update(self, store: &mut Store)
        requires
            old(store).wf(),
        ensures
            final(store).wf(),
            final(store).received_orders@.len() == old(store).received_orders@.len(),
            forall|j: int|
                0 <= j < old(store).received_orders@.len() && (#[trigger] old(
                    store,
                ).received_orders@[j]).id != self.id ==> final(store).received_orders@[j] == old(
                    store,
                ).received_orders@[j],
            forall|j: int|
                0 <= j < old(store).received_orders@.len() && (#[trigger] old(
                    store,
                ).received_orders@[j]).id == self.id ==> final(store).received_orders@[j] == self,
            final(store).users == old(store).users,
            final(store).permissions == old(store).permissions,
            final(store).preferences == old(store).preferences,
            final(store).products == old(store).products,
            final(store).categories == old(store).categories,
            final(store).suppliers == old(store).suppliers,
            final(store).brands == old(store).brands,
            final(store).pending_orders == old(store).pending_orders,
    {
        let ghost recv0 = store.received_orders@;
        let ghost id = self.id;
        match store.find_received(self.id) {
            Some(i) => {
                let _ = store.received_orders.remove(i);
                store.received_orders.insert(i, self);
                proof {
                    lemma_remove_insert(recv0, i as int, store.received_orders@[i as int]);
                    assert(received_ids(store.received_orders@) =~= received_ids(recv0));
                    assert forall|j: int|
                        0 <= j < recv0.len() && (#[trigger] recv0[j]).id == id
                        implies store.received_orders@[j] == store.received_orders@[i as int] by {
                        if j != i as int {
                            assert(received_ids(recv0)[j] == received_ids(recv0)[i as int]);
                        }
                    }
                }
            },
            None => {
                proof {
                    assert forall|j: int| 0 <= j < recv0.len()
                        implies (#[trigger] recv0[j]).id != id by {
                        assert(received_ids(recv0)[j] == recv0[j].id);
                    }
                }
            },
        }
    }

    /// Delete the row whose id matches; a missing id deletes nothing.
    #[verifier::loop_isolation(false)]
    pub fn delete(store: &mut Store, id: i32)
        requires
            old(store).wf(),
        ensures
            final(store).wf(),
            final(store).received_orders@ == old(store).received_orders@.filter(
                |o: ReceivedOrder| o.id != id,
            ),
            old(store).has_received(id) ==> exists|i: int|
                0 <= i < old(store).received_orders@.len() && (#[trigger] old(
                    store,
                ).received_orders@[i]).id == id && final(store).received_orders@ == old(
                    store,
                ).received_orders@.remove(i),
            !old(store).has_received(id) ==> final(store).received_orders@ == old(
                store,
            ).received_orders@,
            !final(store).has_received(id),
            final(store).users == old(store).users,
            final(store).permissions == old(store).permissions,
            final(store).preferences == old(store).preferences,
            final(store).products == old(store).products,
            final(store).categories == old(store).categories,
            final(store).suppliers == old(store).suppliers,
            final(store).brands == old(store).brands,
            final(store).pending_orders == old(store).pending_orders,
    {
        broadcast use vstd::seq::Seq::lemma_filter_push;

        let ghost recv0 = store.received_orders@;
        let mut kept: Vec<ReceivedOrder> = Vec::new();
        let mut k: usize = 0;
        while k < store.received_orders.len()
            invariant
                k <= recv0.len(),
                kept@ == recv0.subrange(0, k as int).filter(|o: ReceivedOrder| o.id != id),
            decreases recv0.len() - k,
        {
            let o = store.received_orders[k];
            if o.id != id {
                kept.push(o);
            }
            proof {
                assert(recv0.subrange(0, k + 1) =~= recv0.subrange(0, k as int).push(
                    recv0[k as int],
                ));
            }
            k += 1;
        }
        proof {
            assert(recv0.subrange(0, recv0.len() as int) =~= recv0);
        }
        store.received_orders = kept;
        proof {
            if old(store).has_received(id) {
                let w = choose|w: int|
                    0 <= w < received_ids(recv0).len() && received_ids(recv0)[w] == id;
                assert(recv0[w].id == id);
                assert forall|j: int| 0 <= j < recv0.len() && j != w
                    implies (|o: ReceivedOrder| o.id != id)(#[trigger] recv0[j]) by {
                    assert(received_ids(recv0)[j] != received_ids(recv0)[w]);
                }
                crate::store::lemma_filter_single_out(recv0, |o: ReceivedOrder| o.id != id, w);
            } else {
                assert forall|j: int| 0 <= j < recv0.len()
                    implies (|o: ReceivedOrder| o.id != id)(#[trigger] recv0[j]) by {
                    assert(received_ids(recv0)[j] == recv0[j].id);
                }
                lemma_filter_all_true(recv0, |o: ReceivedOrder| o.id != id);
            }
            let kr = |o: ReceivedOrder| o.id;
            assert(recv0.map_values(kr) =~= received_ids(recv0));
            lemma_filter_ids_ok(recv0, |o: ReceivedOrder| o.id != id, kr);
            assert(store.received_orders@.map_values(kr) =~= received_ids(store.received_orders@));
            assert forall|j: int| 0 <= j < received_ids(store.received_orders@).len()
                implies received_ids(store.received_orders@)[j] != id by {
                assert(store.received_orders@[j].id != id);
            }
        }
    }

    /// One page of the received-order table, in table order.
    #[verifier::loop_isolation(false)]
    pub fn get_all(store: &Store, limit: i64, offset: i64) -> (r: Vec<ReceivedOrder>)
        requires
            0 <= limit,
            0 <= offset,
        ensures
            r@ == store.received_orders@.subrange(
                min(offset as int, store.received_orders@.len() as int),
                min(offset as int, store.received_orders@.len() as int) + min(
                    limit as int,
                    store.received_orders@.len() - min(
                        offset as int,
                        store.received_orders@.len() as int,
                    ),
                ),
            ),
    {
        let len = store.received_orders.len();
        let start: usize = if offset as u64 >= len as u64 {
            len
        } else {
            offset as usize
        };
        let remaining = len - start;
        let take: usize = if limit as u64 >= remaining as u64 {
            remaining
        } else {
            limit as usize
        };
        let mut r: Vec<ReceivedOrder> = Vec::new();
        let mut k: usize = 0;
        while k < take
            invariant
                k <= take,
                start + take <= len,
                r@ == store.received_orders@.subrange(start as int, start + k),
            decreases take - k,
        {
            r.push(store.received_orders[start + k]);
            proof {
                assert(store.received_orders@.subrange(start as int, start + k + 1)
                    =~= store.received_orders@.subrange(start as int, start + k).push(
                    store.received_orders@[start + k],
                ));
            }
            k += 1;
        }
        r
    }
}

/// The pending row carrying `id`, meaningful when the store is well
/// formed and the row exists.
pub open spec fn pending_for(s: Store, id: i32) -> PendingOrder {
    s.pending_orders@[choose|j: int|
        0 <= j < s.pending_orders@.len() && (#[trigger] s.pending_orders@[j]).id == id]
}

/// Under uniqueness, any index carrying `id` holds the row `pending_for`
/// names.
pub proof fn lemma_pending_for(s: Store, id: i32, i: int)
    requires
        ids_ok(pending_ids(s.pending_orders@)),
        0 <= i < s.pending_orders@.len(),
        s.pending_orders@[i].id == id,
    ensures
        pending_for(s, id) == s.pending_orders@[i],
{
    let j = choose|j: int|
        0 <= j < s.pending_orders@.len() && (#[trigger] s.pending_orders@[j]).id == id;
    if i != j {
        assert(pending_ids(s.pending_orders@)[i] == id);
        assert(pending_ids(s.pending_orders@)[j] == id);
    }
}

/// The received row carrying `id`, meaningful when the store is well
/// formed and the row exists.
pub open spec fn received_for(s: Store, id: i32) -> ReceivedOrder {
    s.received_orders@[choose|j: int|
        0 <= j < s.received_orders@.len() && (#[trigger] s.received_orders@[j]).id == id]
}

/// Under uniqueness, any index carrying `id` holds the row `received_for`
/// names.
pub proof fn lemma_received_for(s: Store, id: i32, i: int)
    requires
        ids_ok(received_ids(s.received_orders@)),
        0 <= i < s.received_orders@.len(),
        s.received_orders@[i].id == id,
    ensures
        received_for(s, id) == s.received_orders@[i],
{
    let j = choose|j: int|
        0 <= j < s.received_orders@.len() && (#[trigger] s.received_orders@[j]).id == id;
    if i != j {
        assert(received_ids(s.received_orders@)[i] == id);
        assert(received_ids(s.received_orders@)[j] == id);
    }
}

/// Law: marking a pending order `o` as received and immediately reverting
/// it re-places the original `product_id` and ordered `amount` in a new
/// pending row, the new pending id differs from `o`'s (given that some
/// other key keeps the pending allocator ahead of `o.id`), and the receipt
/// data — the date, the actually received and the damaged quantities —
/// is gone: the received table is exactly what it was before the pair of
/// calls.
pub proof fn lemma_mark_then_revert(
    pending: Seq<PendingOrder>,
    received: Seq<ReceivedOrder>,
    o: PendingOrder,
    date: i64,
    actually_received: i64,
    damaged: i64,
)
    requires
        ids_ok(pending_ids(pending)),
        ids_ok(received_ids(received)),
        max_key(received_ids(received)) + 1 < i32::MAX,
        max_key(pending_ids(pending.filter(|p: PendingOrder| p.id != o.id))) + 1 < i32::MAX,
        max_key(pending_ids(pending.filter(|p: PendingOrder| p.id != o.id))) + 1 != o.id,
    ensures
        ({
            let rid = (max_key(received_ids(received)) + 1) as i32;
            let row = ReceivedOrder {
                id: rid,
                received: Some(date),
                product_id: o.product_id,
                gross_amount: o.amount,
                actually_received,
                damaged,
            };
            let pending1 = pending.filter(|p: PendingOrder| p.id != o.id);
            let received1 = received.push(row);
            let pid2 = (max_key(pending_ids(pending1)) + 1) as i32;
            let row2 = PendingOrder { id: pid2, product_id: row.product_id, amount: row.gross_amount };
            &&& row2.product_id == o.product_id
            &&& row2.amount == o.amount
            &&& row2.id != o.id
            &&& received1.filter(|r: ReceivedOrder| r.id != rid) == received
        }),
{
    broadcast use vstd::seq::Seq::lemma_filter_push;

    let rid = (max_key(received_ids(received)) + 1) as i32;
    let row = ReceivedOrder {
        id: rid,
        received: Some(date),
        product_id: o.product_id,
        gross_amount: o.amount,
        actually_received,
        damaged,
    };
    lemma_max_key_bound(received_ids(received));
    assert(received.push(row).filter(|r: ReceivedOrder| r.id != rid) == received.filter(
        |r: ReceivedOrder| r.id != rid,
    ));
    assert forall|j: int| 0 <= j < received.len()
        implies (|r: ReceivedOrder| r.id != rid)(#[trigger] received[j]) by {
        assert(received_ids(received)[j] == received[j].id);
        assert(received[j].id <= max_key(received_ids(received)));
    }
    lemma_filter_all_true(received, |r: ReceivedOrder| r.id != rid);
}

} // verus!
