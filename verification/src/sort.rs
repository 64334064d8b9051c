//! Ordering a list of pairs by key: a merge sort.

use crate::mempool::MempoolEntry;
use crate::pairs::sorted;
use crate::txid::TransactionId;
use vstd::multiset::*;
use vstd::prelude::*;
use vstd::seq_lib::*;

verus! {

/// Merges two sorted lists into one.
fn merge(
    left: &Vec<(TransactionId, MempoolEntry)>,
    right: &Vec<(TransactionId, MempoolEntry)>,
) -> (merged: Vec<(TransactionId, MempoolEntry)>)
    requires
        sorted(left@),
        sorted(right@),
    ensures
        sorted(merged@),
        merged@.to_multiset() == left@.to_multiset().add(right@.to_multiset()),
{
    broadcast use group_multiset_axioms;

    let mut merged: Vec<(TransactionId, MempoolEntry)> = Vec::new();
    let mut i: usize = 0;
    let mut j: usize = 0;
    proof {
        let none = Seq::<(TransactionId, MempoolEntry)>::empty();
        assert(merged@ =~= none && left@.take(0) =~= none && right@.take(0) =~= none);
        assert(none + none =~= none);
        lemma_multiset_commutative(none, none);
    }
    while i < left.len() || j < right.len()
        invariant
            i <= left.len(),
            j <= right.len(),
            sorted(left@),
            sorted(right@),
            sorted(merged@),
            merged@.to_multiset() == left@.take(i as int).to_multiset().add(
                right@.take(j as int).to_multiset(),
            ),
            forall|x: int, p: int|
                0 <= x < merged.len() && i <= p < left.len() ==> !(#[trigger] left@[p]).0.spec_lt(
                    (#[trigger] merged@[x]).0,
                ),
            forall|x: int, q: int|
                0 <= x < merged.len() && j <= q < right.len() ==> !(#[trigger] right@[q]).0.spec_lt(
                    (#[trigger] merged@[x]).0,
                ),
        decreases (left.len() - i) + (right.len() - j),
    {
        let from_left = if i == left.len() {
            false
        } else if j == right.len() {
            true
        } else {
            !right[j].0.lt(&left[i].0)
        };
        let ghost before = merged@;
        if from_left {
            let pair = left[i];
            proof {
                assert(left@.take(i + 1) =~= left@.take(i as int).push(pair));
                to_multiset_build(left@.take(i as int), pair);
                to_multiset_build(before, pair);
                assert forall|x: int, q: int|
                    0 <= x < before.len() + 1 && j <= q < right.len() implies !(
                #[trigger] right@[q]).0.spec_lt((#[trigger] before.push(pair)[x]).0) by {
                    if x == before.len() && j < q {
                        assert(!right@[q].0.spec_lt(right@[j as int].0));
                    }
                }
            }
            merged.push(pair);
            i += 1;
        } else {
            let pair = right[j];
            proof {
                assert(right@.take(j + 1) =~= right@.take(j as int).push(pair));
                to_multiset_build(right@.take(j as int), pair);
                to_multiset_build(before, pair);
                assert forall|x: int, p: int|
                    0 <= x < before.len() + 1 && i <= p < left.len() implies !(
                #[trigger] left@[p]).0.spec_lt((#[trigger] before.push(pair)[x]).0) by {
                    if x == before.len() && i < p {
                        assert(!left@[p].0.spec_lt(left@[i as int].0));
                    }
                }
            }
            merged.push(pair);
            j += 1;
        }
    }
    assert(left@.take(i as int) =~= left@);
    assert(right@.take(j as int) =~= right@);
    merged
}

/// A sorted copy of the pairs of `pairs` from position `from` up to, not
/// including, position `to`.
fn sort_range(pairs: &[(TransactionId, MempoolEntry)], from: usize, to: usize) -> (part: Vec<
    (TransactionId, MempoolEntry),
>)
    requires
        from <= to <= pairs.len(),
    ensures
        sorted(part@),
        part@.to_multiset() == pairs@.subrange(from as int, to as int).to_multiset(),
    decreases to - from,
{
    if to - from == 0 {
        let part: Vec<(TransactionId, MempoolEntry)> = Vec::new();
        assert(part@ =~= pairs@.subrange(from as int, to as int));
        part
    } else if to - from == 1 {
        let mut part: Vec<(TransactionId, MempoolEntry)> = Vec::new();
        part.push(pairs[from]);
        assert(part@ =~= pairs@.subrange(from as int, to as int));
        part
    } else {
        let middle: usize = from + (to - from) / 2;
        let left = sort_range(pairs, from, middle);
        let right = sort_range(pairs, middle, to);
        proof {
            let low = pairs@.subrange(from as int, middle as int);
            let high = pairs@.subrange(middle as int, to as int);
            assert(low + high =~= pairs@.subrange(from as int, to as int));
            lemma_multiset_commutative(low, high);
        }
        merge(&left, &right)
    }
}

/// The pairs of `pairs`, each as often as it occurs there, ordered by key.
pub(crate) fn sort_by_key(pairs: &[(TransactionId, MempoolEntry)]) -> (ordered: Vec<
    (TransactionId, MempoolEntry),
>)
    ensures
        sorted(ordered@),
        ordered@.to_multiset() == pairs@.to_multiset(),
{
    assert(pairs@.subrange(0, pairs@.len() as int) =~= pairs@);
    sort_range(pairs, 0, pairs.len())
}

} // verus!
