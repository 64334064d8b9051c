//! The delta engine: from two snapshots to the table of what changed.

use crate::delta::{
    added_row, delta_rows, keys_of, lemma_only_in_member, lemma_only_in_step, only_in, removed_row,
    DeltaRow, DeltaTable,
};
use crate::mempool::{MempoolEntry, MempoolSnapshot};
use crate::pairs::{has_key, lemma_ascending_is_distinct, lemma_has_key_push, lemma_map_of_at};
use crate::txid::TransactionId;
use vstd::prelude::*;

verus! {

/// The recorder's delta engine.
pub struct Record;

impl Record {
    /// The keys that left the pool and the keys that entered it between
    /// `prev` and `curr`, each group in the order of its snapshot.
    ///
    /// One pass over `prev` looks every key up in `curr`: a key found there
    /// joins the intersection, a key missing there has been removed. A second
    /// pass over `curr` collects as added the keys that the intersection does
    /// not hold.
    pub fn delta_of_keys(prev: &MempoolSnapshot, curr: &MempoolSnapshot) -> (keys: (
        Vec<TransactionId>,
        Vec<TransactionId>,
    ))
        ensures
            keys.0@ == keys_of(only_in(prev.entries(), curr.entries())),
            keys.1@ == keys_of(only_in(curr.entries(), prev.entries())),
    {
        let before = prev.as_slice();
        let after = curr.as_slice();
        let mut intersection = MempoolSnapshot::new();
        let mut keys_removed: Vec<TransactionId> = Vec::new();
        let mut keys_added: Vec<TransactionId> = Vec::new();

        let mut i: usize = 0;
        while i < before.len()
            invariant
                i <= before.len(),
                before@ == prev.entries(),
                after@ == curr.entries(),
                prev.wf(),
                keys_removed@ == keys_of(only_in(before@.take(i as int), after@)),
                forall|j: int, m: int|
                    0 <= j < intersection.entries().len() && i <= m < before.len() ==> (
                    #[trigger] intersection.entries()[j]).0.spec_lt((#[trigger] before@[m]).0),
                forall|txid: TransactionId|
                    has_key(intersection.entries(), txid) <==> (has_key(
                        before@.take(i as int),
                        txid,
                    ) && has_key(after@, txid)),
            decreases before.len() - i,
        {
            let (txid, entry) = before[i];
            let ghost walked = before@.take(i as int);
            let ghost shared = intersection.entries();
            proof {
                lemma_only_in_step(before@, after@, i as int);
                assert(before@.take(i + 1) =~= walked.push((txid, entry)));
            }
            if curr.contains_key(&txid) {
                intersection = intersection.with_last(txid, entry);
                proof {
                    assert forall|j: int, m: int|
                        0 <= j < intersection.entries().len() && i + 1 <= m
                            < before.len() implies (#[trigger] intersection.entries()[j]).0.spec_lt(
                        (#[trigger] before@[m]).0,
                    ) by {
                        if j == shared.len() {
                            assert(before@[i as int].0.spec_lt(before@[m].0));
                        } else {
                            assert(shared[j].0.spec_lt(before@[m].0));
                        }
                    }
                }
            } else {
                keys_removed.push(txid);
            }
            proof {
                assert forall|other: TransactionId|
                    has_key(intersection.entries(), other) <==> (has_key(
                        before@.take(i + 1),
                        other,
                    ) && has_key(after@, other)) by {
                    lemma_has_key_push(walked, (txid, entry), other);
                    lemma_has_key_push(shared, (txid, entry), other);
                }
            }
            i += 1;
        }
        assert(before@.take(i as int) =~= before@);

        let mut j: usize = 0;
        while j < after.len()
            invariant
                j <= after.len(),
                before@ == prev.entries(),
                after@ == curr.entries(),
                keys_added@ == keys_of(only_in(after@.take(j as int), before@)),
                forall|txid: TransactionId|
                    has_key(intersection.entries(), txid) <==> (has_key(before@, txid) && has_key(
                        after@,
                        txid,
                    )),
            decreases after.len() - j,
        {
            let (txid, _) = after[j];
            proof {
                lemma_only_in_step(after@, before@, j as int);
                assert(after@[j as int].0 == txid);
                assert(has_key(after@, txid));
            }
            if !intersection.contains_key(&txid) {
                keys_added.push(txid);
            }
            j += 1;
        }
        assert(after@.take(j as int) =~= after@);

        (keys_removed, keys_added)
    }

    /// The delta between two snapshots: a removed row from the previous entry
    /// of each transaction that only `prev` holds, then an added row from the
    /// current entry of each transaction that only `curr` holds.
    pub fn create_delta_from_pools(prev: &MempoolSnapshot, curr: &MempoolSnapshot) -> (table:
        DeltaTable)
        ensures
            table@ == delta_rows(prev.entries(), curr.entries()),
    {
        proof {
            use_type_invariant(prev);
            use_type_invariant(curr);
        }
        let keys = Self::delta_of_keys(prev, curr);
        let keys_removed = keys.0;
        let keys_added = keys.1;
        let ghost removed = only_in(prev.entries(), curr.entries());
        let ghost added = only_in(curr.entries(), prev.entries());
        let mut rows: Vec<DeltaRow> = Vec::new();

        let mut i: usize = 0;
        while i < keys_removed.len()
            invariant
                i <= keys_removed.len(),
                prev.wf(),
                removed == only_in(prev.entries(), curr.entries()),
                keys_removed@ == keys_of(removed),
                rows@ == removed.take(i as int).map_values(
                    |pair: (TransactionId, MempoolEntry)| removed_row(pair),
                ),
            decreases keys_removed.len() - i,
        {
            let txid = keys_removed[i];
            proof {
                lemma_entry_of_kept_pair(prev, curr.entries(), i as int);
            }
            let entry = prev.get(&txid).unwrap();
            rows.push(
                DeltaRow {
                    txid,
                    signed_weight: -(entry.weight as i128),
                    fee_sat: entry.fee_base,
                    first_seen: Some(entry.first_seen),
                },
            );
            assert(rows@ =~= removed.take(i + 1).map_values(
                |pair: (TransactionId, MempoolEntry)| removed_row(pair),
            ));
            i += 1;
        }
        assert(removed.take(i as int) =~= removed);
        let ghost removed_rows = rows@;

        let mut j: usize = 0;
        while j < keys_added.len()
            invariant
                j <= keys_added.len(),
                curr.wf(),
                added == only_in(curr.entries(), prev.entries()),
                keys_added@ == keys_of(added),
                rows@ == removed_rows + added.take(j as int).map_values(
                    |pair: (TransactionId, MempoolEntry)| added_row(pair),
                ),
            decreases keys_added.len() - j,
        {
            let txid = keys_added[j];
            proof {
                lemma_entry_of_kept_pair(curr, prev.entries(), j as int);
            }
            let entry = curr.get(&txid).unwrap();
            rows.push(
                DeltaRow {
                    txid,
                    signed_weight: entry.weight as i128,
                    fee_sat: entry.fee_base,
                    first_seen: Some(entry.first_seen),
                },
            );
            assert(rows@ =~= removed_rows + added.take(j + 1).map_values(
                |pair: (TransactionId, MempoolEntry)| added_row(pair),
            ));
            j += 1;
        }
        assert(added.take(j as int) =~= added);

        DeltaTable { rows }
    }
}

/// A snapshot holds the key of each pair that `only_in` keeps of it, with
/// that pair's entry: the lookup of such a key cannot miss.
proof fn lemma_entry_of_kept_pair(
    ours: &MempoolSnapshot,
    theirs: Seq<(TransactionId, MempoolEntry)>,
    j: int,
)
    requires
        ours.wf(),
        0 <= j < only_in(ours.entries(), theirs).len(),
    ensures
        ours@.contains_key(only_in(ours.entries(), theirs)[j].0),
        ours@[only_in(ours.entries(), theirs)[j].0] == only_in(ours.entries(), theirs)[j].1,
{
    let i = lemma_only_in_member(ours.entries(), theirs, j);
    lemma_ascending_is_distinct(ours.entries());
    lemma_map_of_at(ours.entries(), i);
}

} // verus!
