//! Mempool entries and snapshots of the whole pool.
//!
//! A snapshot is a finite mapping from transaction identifier to entry. It is
//! kept as a sequence of pairs in ascending key order, which is also the order
//! in which it is walked; lookups are binary searches. Once built, a snapshot
//! does not change.

use crate::pairs::{
    ascending, distinct_keys, has_key, lemma_ascending_is_distinct,
    lemma_distinct_keys_of_rearranged, lemma_lower_bound_decides, lemma_map_of_at,
    lemma_map_of_len, lemma_map_of_rearranged, map_of, sorted,
};
use crate::sort::sort_by_key;
use crate::txid::TransactionId;
use vstd::prelude::*;

verus! {

/// What the node reports of one unconfirmed transaction.
#[derive(Clone, Copy, Debug, PartialEq, Eq, Structural)]
pub struct MempoolEntry {
    /// Weight of the transaction, in vbyte-equivalent units.
    pub weight: i64,
    /// Base fee, in the smallest currency unit.
    pub fee_base: u64,
    /// Unix time in seconds at which the node first saw the transaction.
    pub first_seen: u64,
}

/// The full state of the pool at one sample instant.
#[derive(Debug, PartialEq, Eq)]
pub struct MempoolSnapshot {
    items: Vec<(TransactionId, MempoolEntry)>,
}

impl View for MempoolSnapshot {
    type V = Map<TransactionId, MempoolEntry>;

    /// The snapshot as a mapping from identifier to entry.
    open spec fn view(&self) -> Map<TransactionId, MempoolEntry> {
        map_of(self.entries())
    }
}

impl Clone for MempoolSnapshot {
    /// A second snapshot with the same pairs.
    fn clone(&self) -> (copy: MempoolSnapshot)
        ensures
            copy.entries() == self.entries(),
    {
        proof {
            use_type_invariant(self);
        }
        let mut items: Vec<(TransactionId, MempoolEntry)> = Vec::new();
        let mut i: usize = 0;
        while i < self.items.len()
            invariant
                i <= self.items.len(),
                items@ == self.items@.take(i as int),
            decreases self.items.len() - i,
        {
            items.push(self.items[i]);
            assert(items@ =~= self.items@.take(i + 1));
            i += 1;
        }
        assert(items@ =~= self.items@);
        MempoolSnapshot { items }
    }
}

impl MempoolSnapshot {
    /// The pairs of the snapshot, in the order in which it is walked.
    pub closed spec fn entries(&self) -> Seq<(TransactionId, MempoolEntry)> {
        self.items@
    }

    /// Every snapshot keeps its keys strictly ascending.
    #[verifier::type_invariant]
    pub open spec fn wf(&self) -> bool {
        ascending(self.entries())
    }

    /// The snapshot of an empty pool.
    pub fn new() -> (snapshot: MempoolSnapshot)
        ensures
            snapshot.wf(),
            snapshot.entries() == Seq::<(TransactionId, MempoolEntry)>::empty(),
            snapshot@ == Map::<TransactionId, MempoolEntry>::empty(),
    {
        let snapshot = MempoolSnapshot { items: Vec::new() };
        assert(snapshot@ =~= Map::<TransactionId, MempoolEntry>::empty());
        snapshot
    }

    /// The snapshot that holds the given pairs, where no two of them share a
    /// key; `None` where two do.
    pub fn from_entries(pairs: &[(TransactionId, MempoolEntry)]) -> (snapshot: Option<
        MempoolSnapshot,
    >)
        ensures
            snapshot.is_some() == distinct_keys(pairs@),
            snapshot matches Some(held) ==> held.wf() && held@ == map_of(pairs@)
                && held.entries().to_multiset() == pairs@.to_multiset(),
    {
        let items = sort_by_key(pairs);
        let mut k: usize = 1;
        while k < items.len()
            invariant
                1 <= k,
                sorted(items@),
                items@.to_multiset() == pairs@.to_multiset(),
                items.len() >= 1 ==> k <= items.len() && ascending(items@.take(k as int)),
            decreases items.len() - k,
        {
            if items[k - 1].0 == items[k].0 {
                proof {
                    if distinct_keys(pairs@) {
                        lemma_distinct_keys_of_rearranged(pairs@, items@);
                        assert(items@[k - 1].0 != items@[k as int].0);
                    }
                }
                return None;
            }
            proof {
                let longer = items@.take(k + 1);
                assert forall|i: int, j: int| 0 <= i < j < longer.len() implies (
                #[trigger] longer[i]).0.spec_lt((#[trigger] longer[j]).0) by {
                    if j < k {
                        assert(items@.take(k as int)[i].0.spec_lt(items@.take(k as int)[j].0));
                    } else if i < k - 1 {
                        assert(items@.take(k as int)[i].0.spec_lt(items@.take(k as int)[k - 1].0));
                        assert(!items@[k as int].0.spec_lt(items@[k - 1].0));
                    } else {
                        assert(!items@[k as int].0.spec_lt(items@[k - 1].0));
                    }
                }
            }
            k += 1;
        }
        proof {
            if items.len() >= 1 {
                assert(items@.take(items.len() as int) =~= items@);
            }
            lemma_ascending_is_distinct(items@);
            lemma_distinct_keys_of_rearranged(items@, pairs@);
            lemma_map_of_rearranged(items@, pairs@);
        }
        Some(MempoolSnapshot { items })
    }

    /// Number of transactions in the snapshot.
    pub fn len(&self) -> (count: usize)
        ensures
            count == self.entries().len(),
            self@.dom().finite(),
            count == self@.dom().len(),
    {
        proof {
            use_type_invariant(self);
            lemma_ascending_is_distinct(self.items@);
            lemma_map_of_len(self.items@);
        }
        self.items.len()
    }

    /// Whether the snapshot holds no transaction.
    pub fn is_empty(&self) -> (empty: bool)
        ensures
            empty == (self.entries().len() == 0),
            empty == (self@ == Map::<TransactionId, MempoolEntry>::empty()),
    {
        proof {
            if self.items@.len() == 0 {
                assert(self@ =~= Map::<TransactionId, MempoolEntry>::empty());
            } else {
                assert(has_key(self.items@, self.items@[0].0));
                assert(self@.contains_key(self.items@[0].0));
            }
        }
        self.items.len() == 0
    }

    /// The pairs of the snapshot, in the order in which it is walked.
    pub fn as_slice(&self) -> (pairs: &[(TransactionId, MempoolEntry)])
        ensures
            pairs@ == self.entries(),
            self.wf(),
    {
        proof {
            use_type_invariant(self);
        }
        self.items.as_slice()
    }

    /// Whether the snapshot holds the transaction `txid`.
    pub fn contains_key(&self, txid: &TransactionId) -> (found: bool)
        ensures
            found == self@.contains_key(*txid),
            found == has_key(self.entries(), *txid),
    {
        proof {
            use_type_invariant(self);
        }
        let at = lower_bound(&self.items, txid);
        let found = at < self.items.len() && self.items[at].0 == *txid;
        proof {
            lemma_lower_bound_decides(self.items@, *txid, at as int);
        }
        found
    }

    /// The entry of the transaction `txid`, if the snapshot holds it.
    pub fn get(&self, txid: &TransactionId) -> (entry: Option<MempoolEntry>)
        ensures
            entry == if self@.contains_key(*txid) {
                Some(self@[*txid])
            } else {
                None
            },
    {
        proof {
            use_type_invariant(self);
        }
        let at = lower_bound(&self.items, txid);
        proof {
            lemma_lower_bound_decides(self.items@, *txid, at as int);
        }
        if at < self.items.len() && self.items[at].0 == *txid {
            proof {
                lemma_ascending_is_distinct(self.items@);
                lemma_map_of_at(self.items@, at as int);
            }
            Some(self.items[at].1)
        } else {
            None
        }
    }

    /// The snapshot with one more transaction, whose key comes after every
    /// key that it holds.
    pub(crate) fn with_last(self, txid: TransactionId, entry: MempoolEntry) -> (longer:
        MempoolSnapshot)
        requires
            forall|i: int|
                0 <= i < self.entries().len() ==> (#[trigger] self.entries()[i]).0.spec_lt(txid),
        ensures
            longer.entries() == self.entries().push((txid, entry)),
    {
        proof {
            use_type_invariant(&self);
        }
        let mut items = self.items;
        items.push((txid, entry));
        MempoolSnapshot { items }
    }
}

/// The first position of `items` whose key does not come before `txid`.
fn lower_bound(items: &Vec<(TransactionId, MempoolEntry)>, txid: &TransactionId) -> (at: usize)
    requires
        ascending(items@),
    ensures
        at <= items.len(),
        forall|i: int| 0 <= i < at ==> (#[trigger] items@[i]).0.spec_lt(*txid),
        forall|i: int| at <= i < items.len() ==> !(#[trigger] items@[i]).0.spec_lt(*txid),
{
    let mut low: usize = 0;
    let mut high: usize = items.len();
    while low < high
        invariant
            low <= high <= items.len(),
            ascending(items@),
            forall|i: int| 0 <= i < low ==> (#[trigger] items@[i]).0.spec_lt(*txid),
            forall|i: int| high <= i < items.len() ==> !(#[trigger] items@[i]).0.spec_lt(*txid),
        decreases high - low,
    {
        let mid: usize = low + (high - low) / 2;
        if items[mid].0.lt(txid) {
            assert forall|i: int| 0 <= i < mid + 1 implies (#[trigger] items@[i]).0.spec_lt(
                *txid,
            ) by {
                if i < mid {
                    assert(items@[i].0.spec_lt(items@[mid as int].0));
                }
            }
            low = mid + 1;
        } else {
            assert forall|i: int| mid <= i < items.len() implies !(#[trigger] items@[i]).0.spec_lt(
                *txid,
            ) by {
                if mid < i {
                    assert(items@[mid as int].0.spec_lt(items@[i].0));
                }
            }
            high = mid;
        }
    }
    low
}

} // verus!
