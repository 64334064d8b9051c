//! Lists of pairs of identifier and entry, and the mappings they stand for.
//!
//! A snapshot is such a list with strictly ascending keys. What is said here
//! of lists and mappings is what the snapshot and the delta engine rest on.

use crate::mempool::MempoolEntry;
use crate::txid::TransactionId;
use vstd::prelude::*;
use vstd::seq_lib::*;

verus! {

/// Whether some pair of `entries` has the key `txid`.
pub open spec fn has_key(entries: Seq<(TransactionId, MempoolEntry)>, txid: TransactionId) -> bool {
    exists|i: int| 0 <= i < entries.len() && (#[trigger] entries[i]).0 == txid
}

/// Some position at which `entries` holds the key `txid`, if there is one.
pub open spec fn position_of(
    entries: Seq<(TransactionId, MempoolEntry)>,
    txid: TransactionId,
) -> int {
    choose|i: int| 0 <= i < entries.len() && (#[trigger] entries[i]).0 == txid
}

/// The keys of `entries` are strictly ascending, hence pairwise distinct.
pub open spec fn ascending(entries: Seq<(TransactionId, MempoolEntry)>) -> bool {
    forall|i: int, j: int|
        0 <= i < j < entries.len() ==> (#[trigger] entries[i]).0.spec_lt((#[trigger] entries[j]).0)
}

/// No key occurs at two positions of `entries`.
pub open spec fn distinct_keys(entries: Seq<(TransactionId, MempoolEntry)>) -> bool {
    forall|i: int, j: int|
        0 <= i < j < entries.len() ==> (#[trigger] entries[i]).0 != (#[trigger] entries[j]).0
}

/// No pair of `entries` has a key that comes before the key of an earlier
/// pair.
pub open spec fn sorted(entries: Seq<(TransactionId, MempoolEntry)>) -> bool {
    forall|i: int, j: int|
        0 <= i < j < entries.len() ==> !(#[trigger] entries[j]).0.spec_lt((#[trigger] entries[i]).0)
}

/// The mapping that a sequence of pairs stands for.
pub open spec fn map_of(entries: Seq<(TransactionId, MempoolEntry)>) -> Map<
    TransactionId,
    MempoolEntry,
> {
    Map::new(
        |txid: TransactionId| has_key(entries, txid),
        |txid: TransactionId| entries[position_of(entries, txid)].1,
    )
}

/// With distinct keys, the mapping gives each key the entry paired with it.
pub proof fn lemma_map_of_at(entries: Seq<(TransactionId, MempoolEntry)>, i: int)
    requires
        distinct_keys(entries),
        0 <= i < entries.len(),
    ensures
        map_of(entries).contains_key(entries[i].0),
        map_of(entries)[entries[i].0] == entries[i].1,
        position_of(entries, entries[i].0) == i,
{
}

/// Ascending keys are distinct keys.
pub proof fn lemma_ascending_is_distinct(entries: Seq<(TransactionId, MempoolEntry)>)
    requires
        ascending(entries),
    ensures
        distinct_keys(entries),
{
}

/// Of two lists that hold the same pairs equally often, each holds every
/// pair of the other.
pub proof fn lemma_member_of_rearranged(
    ours: Seq<(TransactionId, MempoolEntry)>,
    theirs: Seq<(TransactionId, MempoolEntry)>,
    i: int,
) -> (j: int)
    requires
        ours.to_multiset() == theirs.to_multiset(),
        0 <= i < ours.len(),
    ensures
        0 <= j < theirs.len(),
        theirs[j] == ours[i],
{
    assert(ours.contains(ours[i]));
    to_multiset_contains(ours, ours[i]);
    to_multiset_contains(theirs, ours[i]);
    choose|j: int| 0 <= j < theirs.len() && theirs[j] == ours[i]
}

/// A list that holds the same pairs, equally often, as a list with distinct
/// keys has distinct keys too.
pub proof fn lemma_distinct_keys_of_rearranged(
    ours: Seq<(TransactionId, MempoolEntry)>,
    theirs: Seq<(TransactionId, MempoolEntry)>,
)
    requires
        distinct_keys(ours),
        ours.to_multiset() == theirs.to_multiset(),
    ensures
        distinct_keys(theirs),
{
    assert(ours.no_duplicates()) by {
        assert forall|i: int, j: int|
            0 <= i < ours.len() && 0 <= j < ours.len() && i != j implies ours[i] != ours[j] by {
            if i < j {
                assert(ours[i].0 != ours[j].0);
            } else {
                assert(ours[j].0 != ours[i].0);
            }
        }
    }
    ours.lemma_multiset_has_no_duplicates();
    theirs.lemma_multiset_has_no_duplicates_conv();
    assert forall|i: int, j: int| 0 <= i < j < theirs.len() implies (#[trigger] theirs[i]).0 != (
    #[trigger] theirs[j]).0 by {
        assert(theirs[i] != theirs[j]);
        let p = lemma_member_of_rearranged(theirs, ours, i);
        let q = lemma_member_of_rearranged(theirs, ours, j);
        if p < q {
            assert(ours[p].0 != ours[q].0);
        } else if q < p {
            assert(ours[q].0 != ours[p].0);
        }
    }
}

/// Two lists that hold the same pairs equally often, with distinct keys,
/// stand for the same mapping.
pub proof fn lemma_map_of_rearranged(
    ours: Seq<(TransactionId, MempoolEntry)>,
    theirs: Seq<(TransactionId, MempoolEntry)>,
)
    requires
        distinct_keys(ours),
        ours.to_multiset() == theirs.to_multiset(),
    ensures
        map_of(ours) == map_of(theirs),
{
    lemma_distinct_keys_of_rearranged(ours, theirs);
    assert forall|txid: TransactionId| has_key(ours, txid) implies has_key(theirs, txid) && map_of(
        ours,
    )[txid] == map_of(theirs)[txid] by {
        let i = position_of(ours, txid);
        assert(0 <= i < ours.len() && ours[i].0 == txid);
        let j = lemma_member_of_rearranged(ours, theirs, i);
        assert(theirs[j].0 == txid);
        lemma_map_of_at(ours, i);
        lemma_map_of_at(theirs, j);
    }
    assert forall|txid: TransactionId| has_key(theirs, txid) implies has_key(ours, txid) by {
        let j = position_of(theirs, txid);
        assert(0 <= j < theirs.len() && theirs[j].0 == txid);
        let i = lemma_member_of_rearranged(theirs, ours, j);
        assert(ours[i].0 == txid);
    }
    assert(map_of(ours) =~= map_of(theirs));
}

/// Dropping the last pair of a list with distinct keys removes its key from
/// the mapping, and leaves a list with distinct keys.
pub proof fn lemma_map_of_drop_last(entries: Seq<(TransactionId, MempoolEntry)>)
    requires
        distinct_keys(entries),
        entries.len() > 0,
    ensures
        distinct_keys(entries.drop_last()),
        ascending(entries) ==> ascending(entries.drop_last()),
        !has_key(entries.drop_last(), entries.last().0),
        map_of(entries.drop_last()) == map_of(entries).remove(entries.last().0),
{
    let shorter = entries.drop_last();
    let last = entries.last();
    assert forall|i: int, j: int| 0 <= i < j < shorter.len() implies (#[trigger] shorter[i]).0 != (
    #[trigger] shorter[j]).0 by {
        assert(entries[i].0 != entries[j].0);
    }
    if ascending(entries) {
        assert forall|i: int, j: int| 0 <= i < j < shorter.len() implies (
        #[trigger] shorter[i]).0.spec_lt((#[trigger] shorter[j]).0) by {
            assert(entries[i].0.spec_lt(entries[j].0));
        }
    }
    if has_key(shorter, last.0) {
        let i = position_of(shorter, last.0);
        assert(entries[i].0 != entries[entries.len() - 1].0);
    }
    let target = map_of(entries).remove(last.0);
    assert forall|txid: TransactionId| has_key(shorter, txid) implies target.contains_key(txid)
        && map_of(shorter)[txid] == target[txid] by {
        let i = position_of(shorter, txid);
        assert(0 <= i < shorter.len() && shorter[i].0 == txid);
        assert(entries[i].0 == txid);
        lemma_map_of_at(shorter, i);
        lemma_map_of_at(entries, i);
    }
    assert forall|txid: TransactionId| target.contains_key(txid) implies has_key(shorter, txid) by {
        let i = position_of(entries, txid);
        assert(0 <= i < entries.len() && entries[i].0 == txid);
        assert(shorter[i].0 == txid);
    }
    assert(map_of(shorter) =~= target);
}

/// A list with distinct keys stands for a mapping with as many keys as the
/// list has pairs.
pub proof fn lemma_map_of_len(entries: Seq<(TransactionId, MempoolEntry)>)
    requires
        distinct_keys(entries),
    ensures
        map_of(entries).dom().finite(),
        map_of(entries).dom().len() == entries.len(),
    decreases entries.len(),
{
    if entries.len() == 0 {
        assert(map_of(entries).dom() =~= Set::<TransactionId>::empty());
    } else {
        lemma_map_of_drop_last(entries);
        lemma_map_of_len(entries.drop_last());
        lemma_map_of_at(entries, entries.len() - 1);
        assert(map_of(entries).dom() =~= map_of(entries.drop_last()).dom().insert(
            entries.last().0,
        ));
    }
}

/// Two ascending lists that stand for the same mapping are the same list: a
/// mapping is walked in one order only.
pub proof fn lemma_ascending_list_is_unique(
    ours: Seq<(TransactionId, MempoolEntry)>,
    theirs: Seq<(TransactionId, MempoolEntry)>,
)
    requires
        ascending(ours),
        ascending(theirs),
        map_of(ours) == map_of(theirs),
    ensures
        ours == theirs,
    decreases ours.len(),
{
    lemma_ascending_is_distinct(ours);
    lemma_ascending_is_distinct(theirs);
    lemma_map_of_len(ours);
    lemma_map_of_len(theirs);
    if ours.len() == 0 {
        assert(ours =~= theirs);
    } else {
        let end = ours.len() - 1;
        lemma_map_of_at(ours, end);
        lemma_map_of_at(theirs, end);
        assert(map_of(theirs).contains_key(ours[end].0));
        assert(map_of(ours).contains_key(theirs[end].0));
        let j = position_of(theirs, ours[end].0);
        let i = position_of(ours, theirs[end].0);
        assert(0 <= j <= end && theirs[j].0 == ours[end].0);
        assert(0 <= i <= end && ours[i].0 == theirs[end].0);
        if j < end {
            assert(theirs[j].0.spec_lt(theirs[end].0));
            if i < end {
                assert(ours[i].0.spec_lt(ours[end].0));
            }
        }
        assert(ours[end].0 == theirs[end].0);
        assert(ours[end] == theirs[end]);
        lemma_map_of_drop_last(ours);
        lemma_map_of_drop_last(theirs);
        lemma_ascending_list_is_unique(ours.drop_last(), theirs.drop_last());
        assert(ours =~= ours.drop_last().push(ours[end]));
        assert(theirs =~= theirs.drop_last().push(theirs[end]));
    }
}

/// A sequence with one more pair holds the keys that it held and that pair's.
pub proof fn lemma_has_key_push(
    entries: Seq<(TransactionId, MempoolEntry)>,
    pair: (TransactionId, MempoolEntry),
    txid: TransactionId,
)
    ensures
        has_key(entries.push(pair), txid) <==> (has_key(entries, txid) || pair.0 == txid),
{
    let longer = entries.push(pair);
    if has_key(longer, txid) {
        let i = choose|i: int| 0 <= i < longer.len() && (#[trigger] longer[i]).0 == txid;
        if i < entries.len() {
            assert(entries[i].0 == txid);
        }
    }
    if pair.0 == txid {
        assert(longer[entries.len() as int].0 == txid);
    } else if has_key(entries, txid) {
        let i = choose|i: int| 0 <= i < entries.len() && (#[trigger] entries[i]).0 == txid;
        assert(longer[i].0 == txid);
    }
}

/// The lower bound of a key tells whether the key is present: it is, exactly
/// when the pair at the bound has it.
pub proof fn lemma_lower_bound_decides(
    entries: Seq<(TransactionId, MempoolEntry)>,
    txid: TransactionId,
    at: int,
)
    requires
        ascending(entries),
        0 <= at <= entries.len(),
        forall|i: int| 0 <= i < at ==> (#[trigger] entries[i]).0.spec_lt(txid),
        forall|i: int| at <= i < entries.len() ==> !(#[trigger] entries[i]).0.spec_lt(txid),
    ensures
        has_key(entries, txid) <==> (at < entries.len() && entries[at].0 == txid),
        map_of(entries).contains_key(txid) <==> (at < entries.len() && entries[at].0 == txid),
{
}

} // verus!
