//! The difference between two snapshots, as a table of rows.
//!
//! A delta holds one row for every transaction that left the pool between the
//! two samples, followed by one row for every transaction that entered it. A
//! transaction present in both samples gives no row, whatever became of its
//! fee or weight.

use crate::mempool::MempoolEntry;
use crate::pairs::{distinct_keys, has_key, lemma_map_of_at, lemma_map_of_len, map_of, position_of};
use crate::txid::TransactionId;
use vstd::prelude::*;

verus! {

/// One transaction that entered or left the pool.
#[derive(Clone, Copy, Debug, PartialEq, Eq)]
pub struct DeltaRow {
    /// The transaction.
    pub txid: TransactionId,
    /// The entry's weight where the transaction entered, its negation where
    /// the transaction left.
    pub signed_weight: i128,
    /// Base fee of the entry, in the smallest currency unit.
    pub fee_sat: u64,
    /// When the node first saw the transaction, where that is tracked.
    pub first_seen: Option<u64>,
}

/// The rows of one delta, removed transactions first.
#[derive(Debug, PartialEq, Eq)]
pub struct DeltaTable {
    /// The rows, in the order in which they are written.
    pub rows: Vec<DeltaRow>,
}

impl View for DeltaTable {
    type V = Seq<DeltaRow>;

    open spec fn view(&self) -> Seq<DeltaRow> {
        self.rows@
    }
}

/// The rows of a delta by columns, as the file holds them: one value of
/// each column for every row, in the order of the rows.
#[derive(Debug, PartialEq, Eq)]
pub struct DeltaColumns {
    /// The transaction of each row, as text.
    pub txid: Vec<String>,
    /// The signed weight of each row.
    pub signed_weight: Vec<i128>,
    /// The fee of each row.
    pub fee_sat: Vec<u64>,
    /// The time at which the transaction of each row was first seen.
    pub first_seen: Vec<Option<u64>>,
}

impl DeltaColumns {
    /// Whether the columns hold `rows`: each column has one value for every
    /// row, and that value is the row's.
    pub open spec fn holds(&self, rows: Seq<DeltaRow>) -> bool {
        &&& self.txid@.len() == rows.len()
        &&& self.signed_weight@.len() == rows.len()
        &&& self.fee_sat@.len() == rows.len()
        &&& self.first_seen@.len() == rows.len()
        &&& forall|i: int|
            0 <= i < rows.len() ==> {
                &&& (#[trigger] self.txid@[i])@ == rows[i].txid.spec_to_text()
                &&& self.signed_weight@[i] == rows[i].signed_weight
                &&& self.fee_sat@[i] == rows[i].fee_sat
                &&& self.first_seen@[i] == rows[i].first_seen
            }
    }
}

impl DeltaTable {
    /// Number of rows in the table.
    pub fn len(&self) -> (count: usize)
        ensures
            count == self@.len(),
    {
        self.rows.len()
    }

    /// The table by columns.
    pub fn columns(&self) -> (columns: DeltaColumns)
        ensures
            columns.holds(self@),
    {
        let mut txid: Vec<String> = Vec::new();
        let mut signed_weight: Vec<i128> = Vec::new();
        let mut fee_sat: Vec<u64> = Vec::new();
        let mut first_seen: Vec<Option<u64>> = Vec::new();
        let mut i: usize = 0;
        while i < self.rows.len()
            invariant
                i <= self.rows.len(),
                txid@.len() == i,
                signed_weight@.len() == i,
                fee_sat@.len() == i,
                first_seen@.len() == i,
                forall|j: int|
                    0 <= j < i ==> (#[trigger] txid@[j])@ == self.rows@[j].txid.spec_to_text(),
                forall|j: int|
                    0 <= j < i ==> #[trigger] signed_weight@[j] == self.rows@[j].signed_weight,
                forall|j: int| 0 <= j < i ==> #[trigger] fee_sat@[j] == self.rows@[j].fee_sat,
                forall|j: int| 0 <= j < i ==> #[trigger] first_seen@[j] == self.rows@[j].first_seen,
            decreases self.rows.len() - i,
        {
            let row = self.rows[i];
            txid.push(row.txid.to_text());
            signed_weight.push(row.signed_weight);
            fee_sat.push(row.fee_sat);
            first_seen.push(row.first_seen);
            i += 1;
        }
        DeltaColumns { txid, signed_weight, fee_sat, first_seen }
    }
}

/// The row of a transaction that left the pool, from its previous entry.
pub open spec fn removed_row(pair: (TransactionId, MempoolEntry)) -> DeltaRow {
    DeltaRow {
        txid: pair.0,
        signed_weight: (-(pair.1.weight as int)) as i128,
        fee_sat: pair.1.fee_base,
        first_seen: Some(pair.1.first_seen),
    }
}

/// The row of a transaction that entered the pool, from its current entry.
pub open spec fn added_row(pair: (TransactionId, MempoolEntry)) -> DeltaRow {
    DeltaRow {
        txid: pair.0,
        signed_weight: pair.1.weight as i128,
        fee_sat: pair.1.fee_base,
        first_seen: Some(pair.1.first_seen),
    }
}

/// The test that a pair's key is not among the keys of `entries`.
pub open spec fn lacks(entries: Seq<(TransactionId, MempoolEntry)>) -> spec_fn(
    (TransactionId, MempoolEntry),
) -> bool {
    |pair: (TransactionId, MempoolEntry)| !has_key(entries, pair.0)
}

/// The pairs of `ours` whose key `theirs` does not hold, in the order of
/// `ours`.
pub open spec fn only_in(
    ours: Seq<(TransactionId, MempoolEntry)>,
    theirs: Seq<(TransactionId, MempoolEntry)>,
) -> Seq<(TransactionId, MempoolEntry)> {
    ours.filter(lacks(theirs))
}

/// The keys of a sequence of pairs, in its order.
pub open spec fn keys_of(entries: Seq<(TransactionId, MempoolEntry)>) -> Seq<TransactionId> {
    entries.map_values(|pair: (TransactionId, MempoolEntry)| pair.0)
}

/// The rows of the delta from the snapshot walked as `prev` to the snapshot
/// walked as `curr`: a removed row for each pair that only `prev` holds, then
/// an added row for each pair that only `curr` holds.
pub open spec fn delta_rows(
    prev: Seq<(TransactionId, MempoolEntry)>,
    curr: Seq<(TransactionId, MempoolEntry)>,
) -> Seq<DeltaRow> {
    only_in(prev, curr).map_values(|pair: (TransactionId, MempoolEntry)| removed_row(pair))
        + only_in(curr, prev).map_values(|pair: (TransactionId, MempoolEntry)| added_row(pair))
}

/// Walking one pair further extends `only_in` by that pair exactly when the
/// other side lacks its key.
pub proof fn lemma_only_in_step(
    ours: Seq<(TransactionId, MempoolEntry)>,
    theirs: Seq<(TransactionId, MempoolEntry)>,
    i: int,
)
    requires
        0 <= i < ours.len(),
    ensures
        only_in(ours.take(i + 1), theirs) == if has_key(theirs, ours[i].0) {
            only_in(ours.take(i), theirs)
        } else {
            only_in(ours.take(i), theirs).push(ours[i])
        },
        keys_of(only_in(ours.take(i), theirs).push(ours[i])) == keys_of(
            only_in(ours.take(i), theirs),
        ).push(ours[i].0),
{
    assert(ours.take(i + 1) =~= ours.take(i).push(ours[i]));
    ours.take(i).lemma_filter_push(ours[i], lacks(theirs));
    assert(keys_of(only_in(ours.take(i), theirs).push(ours[i])) =~= keys_of(
        only_in(ours.take(i), theirs),
    ).push(ours[i].0));
}

/// Every pair of `only_in(ours, theirs)` is a pair of `ours` whose key
/// `theirs` does not hold.
pub proof fn lemma_only_in_member(
    ours: Seq<(TransactionId, MempoolEntry)>,
    theirs: Seq<(TransactionId, MempoolEntry)>,
    j: int,
) -> (i: int)
    requires
        0 <= j < only_in(ours, theirs).len(),
    ensures
        0 <= i < ours.len(),
        ours[i] == only_in(ours, theirs)[j],
        !has_key(theirs, ours[i].0),
{
    let kept = only_in(ours, theirs);
    ours.lemma_filter_pred(lacks(theirs), j);
    assert(kept.contains(kept[j]));
    ours.lemma_filter_contains_rev(lacks(theirs), kept[j]);
    choose|i: int| 0 <= i < ours.len() && ours[i] == kept[j]
}

/// `only_in` holds a key exactly when `ours` holds it and `theirs` does not.
pub proof fn lemma_only_in_keys(
    ours: Seq<(TransactionId, MempoolEntry)>,
    theirs: Seq<(TransactionId, MempoolEntry)>,
    txid: TransactionId,
)
    ensures
        has_key(only_in(ours, theirs), txid) <==> has_key(ours, txid) && !has_key(theirs, txid),
{
    let kept = only_in(ours, theirs);
    if has_key(kept, txid) {
        let j = position_of(kept, txid);
        let i = lemma_only_in_member(ours, theirs, j);
        assert(ours[i].0 == txid);
    }
    if has_key(ours, txid) && !has_key(theirs, txid) {
        let i = position_of(ours, txid);
        assert(lacks(theirs)(ours[i]));
        ours.lemma_filter_contains(lacks(theirs), i);
        let j = choose|j: int| 0 <= j < kept.len() && kept[j] == ours[i];
        assert(kept[j].0 == txid);
    }
}

/// Where the keys of `ours` are distinct, so are those that `only_in` keeps.
pub proof fn lemma_only_in_distinct(
    ours: Seq<(TransactionId, MempoolEntry)>,
    theirs: Seq<(TransactionId, MempoolEntry)>,
)
    requires
        distinct_keys(ours),
    ensures
        distinct_keys(only_in(ours, theirs)),
    decreases ours.len(),
{
    if ours.len() == 0 {
        ours.lemma_filter_len(lacks(theirs));
    } else {
        let shorter = ours.drop_last();
        let last = ours.last();
        assert(distinct_keys(shorter)) by {
            assert forall|i: int, j: int| 0 <= i < j < shorter.len() implies (
            #[trigger] shorter[i]).0 != (#[trigger] shorter[j]).0 by {
                assert(ours[i].0 != ours[j].0);
            }
        }
        lemma_only_in_distinct(shorter, theirs);
        assert(shorter.push(last) =~= ours);
        shorter.lemma_filter_push(last, lacks(theirs));
        let kept = only_in(shorter, theirs);
        if lacks(theirs)(last) {
            let longer = kept.push(last);
            assert forall|i: int, j: int| 0 <= i < j < longer.len() implies (
            #[trigger] longer[i]).0 != (#[trigger] longer[j]).0 by {
                if j < kept.len() {
                    assert(kept[i].0 != kept[j].0);
                } else {
                    let at = lemma_only_in_member(shorter, theirs, i);
                    assert(ours[at].0 != ours[ours.len() - 1].0);
                }
            }
        }
    }
}

/// `only_in` has as many pairs as there are keys of `ours` that `theirs`
/// does not hold.
pub proof fn lemma_only_in_len(
    ours: Seq<(TransactionId, MempoolEntry)>,
    theirs: Seq<(TransactionId, MempoolEntry)>,
)
    requires
        distinct_keys(ours),
    ensures
        only_in(ours, theirs).len() == map_of(ours).dom().difference(map_of(theirs).dom()).len(),
{
    let kept = only_in(ours, theirs);
    lemma_only_in_distinct(ours, theirs);
    lemma_map_of_len(kept);
    assert(map_of(kept).dom() =~= map_of(ours).dom().difference(map_of(theirs).dom())) by {
        assert forall|txid: TransactionId|
            has_key(kept, txid) <==> has_key(ours, txid) && !has_key(theirs, txid) by {
            lemma_only_in_keys(ours, theirs, txid);
        }
    }
}

/// The key of each row of a delta, by what its position says: a row of the
/// first group has a key that only `prev` holds, a row of the second a key
/// that only `curr` holds.
pub proof fn lemma_delta_row_at(
    prev: Seq<(TransactionId, MempoolEntry)>,
    curr: Seq<(TransactionId, MempoolEntry)>,
    i: int,
)
    requires
        0 <= i < delta_rows(prev, curr).len(),
    ensures
        delta_rows(prev, curr).len() == only_in(prev, curr).len() + only_in(curr, prev).len(),
        i < only_in(prev, curr).len() ==> delta_rows(prev, curr)[i] == removed_row(
            only_in(prev, curr)[i],
        ) && has_key(prev, delta_rows(prev, curr)[i].txid) && !has_key(
            curr,
            delta_rows(prev, curr)[i].txid,
        ),
        i >= only_in(prev, curr).len() ==> delta_rows(prev, curr)[i] == added_row(
            only_in(curr, prev)[i - only_in(prev, curr).len()],
        ) && has_key(curr, delta_rows(prev, curr)[i].txid) && !has_key(
            prev,
            delta_rows(prev, curr)[i].txid,
        ),
{
    let removed = only_in(prev, curr);
    let added = only_in(curr, prev);
    if i < removed.len() {
        let at = lemma_only_in_member(prev, curr, i);
        assert(prev[at].0 == removed[i].0);
    } else {
        let at = lemma_only_in_member(curr, prev, i - removed.len());
        assert(curr[at].0 == added[i - removed.len()].0);
    }
}

/// A delta has one row for each key that exactly one of the two snapshots
/// holds, and no row for a key that both hold.
pub proof fn lemma_delta_counts_membership_changes(
    prev: Seq<(TransactionId, MempoolEntry)>,
    curr: Seq<(TransactionId, MempoolEntry)>,
)
    requires
        distinct_keys(prev),
        distinct_keys(curr),
    ensures
        delta_rows(prev, curr).len() == map_of(prev).dom().difference(map_of(curr).dom()).len()
            + map_of(curr).dom().difference(map_of(prev).dom()).len(),
        forall|i: int|
            0 <= i < delta_rows(prev, curr).len() ==> !(has_key(
                prev,
                (#[trigger] delta_rows(prev, curr)[i]).txid,
            ) && has_key(curr, delta_rows(prev, curr)[i].txid)),
{
    lemma_only_in_len(prev, curr);
    lemma_only_in_len(curr, prev);
    assert forall|i: int| 0 <= i < delta_rows(prev, curr).len() implies !(has_key(
        prev,
        (#[trigger] delta_rows(prev, curr)[i]).txid,
    ) && has_key(curr, delta_rows(prev, curr)[i].txid)) by {
        lemma_delta_row_at(prev, curr, i);
    }
}

/// The delta of a snapshot against itself is the empty table.
pub proof fn lemma_delta_of_unchanged_is_empty(entries: Seq<(TransactionId, MempoolEntry)>)
    ensures
        delta_rows(entries, entries) == Seq::<DeltaRow>::empty(),
{
    let kept = only_in(entries, entries);
    if kept.len() > 0 {
        let i = lemma_only_in_member(entries, entries, 0);
        assert(has_key(entries, entries[i].0));
    }
    assert(delta_rows(entries, entries) =~= Seq::<DeltaRow>::empty());
}

/// The delta of a snapshot against the empty snapshot lists every entry of
/// the snapshot, in its order, as an added row: the row has the entry's own
/// weight, positive where the entry's is, its fee, and the time at which it
/// was first seen.
pub proof fn lemma_delta_from_empty_is_full(curr: Seq<(TransactionId, MempoolEntry)>)
    ensures
        delta_rows(Seq::empty(), curr) == curr.map_values(
            |pair: (TransactionId, MempoolEntry)| added_row(pair),
        ),
        delta_rows(Seq::empty(), curr).len() == curr.len(),
        forall|i: int|
            0 <= i < curr.len() ==> {
                let row = #[trigger] delta_rows(Seq::empty(), curr)[i];
                &&& row.txid == curr[i].0
                &&& row.signed_weight == curr[i].1.weight
                &&& curr[i].1.weight > 0 ==> row.signed_weight > 0
                &&& row.fee_sat == curr[i].1.fee_base
                &&& row.first_seen == Some(curr[i].1.first_seen)
            },
{
    let none = Seq::<(TransactionId, MempoolEntry)>::empty();
    none.lemma_filter_len(lacks(curr));
    lemma_only_in_nothing(curr);
    assert(delta_rows(none, curr) =~= curr.map_values(
        |pair: (TransactionId, MempoolEntry)| added_row(pair),
    ));
}

/// Against the empty snapshot, `only_in` keeps every pair.
pub proof fn lemma_only_in_nothing(ours: Seq<(TransactionId, MempoolEntry)>)
    ensures
        only_in(ours, Seq::empty()) == ours,
    decreases ours.len(),
{
    let none = Seq::<(TransactionId, MempoolEntry)>::empty();
    if ours.len() == 0 {
        ours.lemma_filter_len(lacks(none));
        assert(only_in(ours, none) =~= ours);
    } else {
        let shorter = ours.drop_last();
        lemma_only_in_nothing(shorter);
        assert(shorter.push(ours.last()) =~= ours);
        shorter.lemma_filter_push(ours.last(), lacks(none));
        assert(!has_key(none, ours.last().0));
    }
}

/// A transaction that only the previous snapshot holds has one row in the
/// delta, among the removed rows, and that row is made of its previous
/// entry: the negated weight, the fee, and the time at which it was first
/// seen.
pub proof fn lemma_removed_row_is_from_previous_entry(
    prev: Seq<(TransactionId, MempoolEntry)>,
    curr: Seq<(TransactionId, MempoolEntry)>,
    txid: TransactionId,
) -> (at: int)
    requires
        distinct_keys(prev),
        has_key(prev, txid),
        !has_key(curr, txid),
    ensures
        0 <= at < only_in(prev, curr).len() <= delta_rows(prev, curr).len(),
        delta_rows(prev, curr)[at].txid == txid,
        delta_rows(prev, curr)[at].signed_weight == -map_of(prev)[txid].weight,
        delta_rows(prev, curr)[at].fee_sat == map_of(prev)[txid].fee_base,
        delta_rows(prev, curr)[at].first_seen == Some(map_of(prev)[txid].first_seen),
        forall|i: int|
            0 <= i < delta_rows(prev, curr).len() && (#[trigger] delta_rows(prev, curr)[i]).txid
                == txid ==> i == at,
{
    let rows = delta_rows(prev, curr);
    let removed = only_in(prev, curr);
    lemma_only_in_keys(prev, curr, txid);
    lemma_only_in_distinct(prev, curr);
    let at = position_of(removed, txid);
    assert(0 <= at < removed.len() && removed[at].0 == txid);
    let held = lemma_only_in_member(prev, curr, at);
    lemma_map_of_at(prev, held);
    assert(rows[at] == removed_row(removed[at]));
    assert forall|i: int| 0 <= i < rows.len() && (#[trigger] rows[i]).txid == txid implies i
        == at by {
        lemma_delta_row_at(prev, curr, i);
        if i < at {
            assert(removed[i].0 != removed[at].0);
        } else if at < i {
            assert(removed[at].0 != removed[i].0);
        }
    }
    at
}

/// A transaction that only the current snapshot holds has one row in the
/// delta, among the added rows, and that row is made of its current entry:
/// the weight, the fee, and the time at which it was first seen.
pub proof fn lemma_added_row_is_from_current_entry(
    prev: Seq<(TransactionId, MempoolEntry)>,
    curr: Seq<(TransactionId, MempoolEntry)>,
    txid: TransactionId,
) -> (at: int)
    requires
        distinct_keys(curr),
        has_key(curr, txid),
        !has_key(prev, txid),
    ensures
        only_in(prev, curr).len() <= at < delta_rows(prev, curr).len(),
        delta_rows(prev, curr)[at].txid == txid,
        delta_rows(prev, curr)[at].signed_weight == map_of(curr)[txid].weight,
        delta_rows(prev, curr)[at].fee_sat == map_of(curr)[txid].fee_base,
        delta_rows(prev, curr)[at].first_seen == Some(map_of(curr)[txid].first_seen),
        forall|i: int|
            0 <= i < delta_rows(prev, curr).len() && (#[trigger] delta_rows(prev, curr)[i]).txid
                == txid ==> i == at,
{
    let rows = delta_rows(prev, curr);
    let removed = only_in(prev, curr);
    let added = only_in(curr, prev);
    lemma_only_in_keys(curr, prev, txid);
    lemma_only_in_distinct(curr, prev);
    let among = position_of(added, txid);
    assert(0 <= among < added.len() && added[among].0 == txid);
    let held = lemma_only_in_member(curr, prev, among);
    lemma_map_of_at(curr, held);
    let at = removed.len() + among;
    assert(rows[at] == added_row(added[among]));
    assert forall|i: int| 0 <= i < rows.len() && (#[trigger] rows[i]).txid == txid implies i
        == at by {
        lemma_delta_row_at(prev, curr, i);
        let j = i - removed.len();
        if j < among {
            assert(added[j].0 != added[among].0);
        } else if among < j {
            assert(added[among].0 != added[j].0);
        }
    }
    at
}

} // verus!
