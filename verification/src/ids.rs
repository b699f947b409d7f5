//! Identifier allocation: every table hands out primary keys by scanning the
//! existing keys and returning the maximum plus one, with an empty table
//! treated as maximum zero.

use vstd::prelude::*;

verus! {

/// The largest key present in `s`, with 0 standing in for an empty table.
pub open spec fn max_key(s: Seq<i32>) -> int
    decreases s.len(),
{
    if s.len() == 0 {
        0
    } else {
        let rest = max_key(s.drop_last());
        if s.last() > rest {
            s.last() as int
        } else {
            rest
        }
    }
}

/// `max_key` bounds every element of the sequence, never drops below 0,
/// and is either 0 or one of the keys.
pub proof fn lemma_max_key_bound(s: Seq<i32>)
    ensures
        max_key(s) >= 0,
        forall|i: int| 0 <= i < s.len() ==> s[i] <= max_key(s),
        max_key(s) == 0 || exists|i: int| 0 <= i < s.len() && s[i] == max_key(s),
    decreases s.len(),
{
    if s.len() > 0 {
        lemma_max_key_bound(s.drop_last());
        assert(forall|i: int| 0 <= i < s.len() - 1 ==> s[i] == s.drop_last()[i]);
        if max_key(s) != 0 {
            if s.last() > max_key(s.drop_last()) {
                assert(s[s.len() - 1] == max_key(s));
            } else {
                let i = choose|i: int|
                    0 <= i < s.len() - 1 && s.drop_last()[i] == max_key(s.drop_last());
                assert(s[i] == max_key(s));
            }
        }
    }
}

/// Allocate the next primary key for a table whose keys are `ids`:
/// the maximum key plus one, so an empty table yields 1, and gaps in the
/// key sequence are ignored.
pub fn next_id(ids: &Vec<i32>) -> (r: i32)
    requires
        forall|i: int| 0 <= i < ids@.len() ==> ids@[i] < i32::MAX,
    ensures
        r == max_key(ids@) + 1,
{
    proof {
        lemma_max_key_bound(ids@);
    }
    let mut best: i32 = 0;
    let mut k: usize = 0;
    while k < ids.len()
        invariant
            k <= ids@.len(),
            best == max_key(ids@.subrange(0, k as int)),
            forall|i: int| 0 <= i < ids@.len() ==> ids@[i] < i32::MAX,
            max_key(ids@) < i32::MAX,
        decreases ids@.len() - k,
    {
        proof {
            assert(ids@.subrange(0, k + 1).drop_last() =~= ids@.subrange(0, k as int));
            lemma_max_key_bound(ids@.subrange(0, k + 1));
        }
        if ids[k] > best {
            best = ids[k];
        }
        k += 1;
    }
    proof {
        assert(ids@.subrange(0, ids@.len() as int) =~= ids@);
    }
    best + 1
}

} // verus!
