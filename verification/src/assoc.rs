//! The association between a product and its owners (brands, categories,
//! suppliers) lives in an array column on the owner row. Attach appends a
//! link — without any duplicate check, so attaching twice stores the link
//! twice — and detach removes every link to the product.

use vstd::prelude::*;

verus! {

/// The array after one attach of `pid`: one more link, at the end.
pub open spec fn attach_ids(products: Seq<Option<i32>>, pid: i32) -> Seq<Option<i32>> {
    products.push(Some(pid))
}

/// The array after a detach of `pid`: every link to `pid` removed, the
/// rest kept in order.
pub open spec fn detach_ids(products: Seq<Option<i32>>, pid: i32) -> Seq<Option<i32>> {
    products.filter(|e: Option<i32>| e != Some(pid))
}

/// How many links to `pid` the array holds.
pub open spec fn occurrences(products: Seq<Option<i32>>, pid: i32) -> nat {
    products.to_multiset().count(Some(pid))
}

/// Whether the array links to `pid` at all.
pub open spec fn lists_product(products: Seq<Option<i32>>, pid: i32) -> bool {
    products.contains(Some(pid))
}

/// Law: one attach adds exactly one link to the product and leaves every
/// other product's link count alone.
pub proof fn lemma_attach_adds_one(products: Seq<Option<i32>>, pid: i32)
    ensures
        occurrences(attach_ids(products, pid), pid) == occurrences(products, pid) + 1,
        forall|q: i32| q != pid ==> occurrences(attach_ids(products, pid), q) == occurrences(
            products,
            q,
        ),
        lists_product(attach_ids(products, pid), pid),
{
    broadcast use vstd::seq_lib::group_to_multiset_ensures;

    assert(attach_ids(products, pid)[products.len() as int] == Some(pid));
}

/// Law: after a detach of `pid` the array holds no link to `pid` at all —
/// however many attaches of `pid` came before, including none — and an
/// attach directly before the detach changes nothing about the outcome.
pub proof fn lemma_detach_clears(products: Seq<Option<i32>>, pid: i32)
    ensures
        occurrences(detach_ids(products, pid), pid) == 0,
        !lists_product(detach_ids(products, pid), pid),
        detach_ids(attach_ids(products, pid), pid) == detach_ids(products, pid),
{
    broadcast use vstd::seq_lib::group_filter_ensures;
    broadcast use vstd::seq_lib::group_to_multiset_ensures;
    broadcast use vstd::seq::Seq::lemma_filter_push;

    let d = detach_ids(products, pid);
    assert(!d.contains(Some(pid))) by {
        if d.contains(Some(pid)) {
            let i = choose|i: int| 0 <= i < d.len() && d[i] == Some(pid);
            assert((|e: Option<i32>| e != Some(pid))(d[i]));
        }
    }
}

/// Law: a detach also keeps every link to any other product, in order.
pub proof fn lemma_detach_keeps_others(products: Seq<Option<i32>>, pid: i32, q: i32)
    requires
        q != pid,
    ensures
        occurrences(detach_ids(products, pid), q) == occurrences(products, q),
    decreases products.len(),
{
    broadcast use vstd::seq_lib::group_to_multiset_ensures;
    broadcast use vstd::seq::Seq::lemma_filter_push;

    reveal(Seq::filter);
    if products.len() > 0 {
        let rest = products.drop_last();
        lemma_detach_keeps_others(rest, pid, q);
        assert(rest.push(products.last()) =~= products);
        assert(products.to_multiset().count(Some(q)) == rest.to_multiset().insert(
            products.last(),
        ).count(Some(q)));
        if products.last() == Some(pid) {
            assert(detach_ids(products, pid) == detach_ids(rest, pid));
        } else {
            assert(detach_ids(products, pid) == detach_ids(rest, pid).push(products.last()));
        }
    }
}

/// How many times `x` occurs in a plain id list.
pub open spec fn count_id(ids: Seq<i32>, x: i32) -> nat
    decreases ids.len(),
{
    if ids.len() == 0 {
        0
    } else {
        count_id(ids.drop_last(), x) + (if ids.last() == x {
            1nat
        } else {
            0nat
        })
    }
}

/// `n` links to `pid` in a row.
pub open spec fn repeated(pid: i32, n: nat) -> Seq<Option<i32>> {
    Seq::new(n, |i: int| Some(pid))
}

/// Counting one more id.
pub proof fn lemma_count_id_push(ids: Seq<i32>, x: i32, y: i32)
    ensures
        count_id(ids.push(y), x) == count_id(ids, x) + (if x == y {
            1int
        } else {
            0int
        }),
{
    assert(ids.push(y).drop_last() =~= ids);
}

/// Build the array with every link to `pid` removed.
pub fn detach_entries(products: &Vec<Option<i32>>, pid: i32) -> (r: Vec<Option<i32>>)
    ensures
        r@ == detach_ids(products@, pid),
{
    broadcast use vstd::seq::Seq::lemma_filter_push;

    let mut r: Vec<Option<i32>> = Vec::new();
    let mut k: usize = 0;
    while k < products.len()
        invariant
            k <= products@.len(),
            r@ == detach_ids(products@.subrange(0, k as int), pid),
        decreases products@.len() - k,
    {
        let e = products[k];
        let keep: bool = match e {
            Some(x) => x != pid,
            None => true,
        };
        if keep {
            r.push(e);
        }
        proof {
            Seq::lemma_filter_push(
                products@.subrange(0, k as int),
                products@[k as int],
                |e: Option<i32>| e != Some(pid),
            );
            assert(products@.subrange(0, k + 1) =~= products@.subrange(0, k as int).push(
                products@[k as int],
            ));
        }
        k += 1;
    }
    proof {
        assert(products@.subrange(0, products@.len() as int) =~= products@);
    }
    r
}

/// Whether the array links to `pid`.
pub fn lists_entry(products: &Vec<Option<i32>>, pid: i32) -> (r: bool)
    ensures
        r == lists_product(products@, pid),
{
    let mut k: usize = 0;
    while k < products.len()
        invariant
            k <= products@.len(),
            forall|j: int| 0 <= j < k ==> products@[j] != Some(pid),
        decreases products@.len() - k,
    {
        let hit: bool = match products[k] {
            Some(x) => x == pid,
            None => false,
        };
        if hit {
            return true;
        }
        k += 1;
    }
    false
}

} // verus!
