use wtf::delta::{DeltaColumns, DeltaRow, DeltaTable};
use wtf::mempool::{MempoolEntry, MempoolSnapshot};
use wtf::record::Record;
use wtf::txid::TransactionId;

fn id(n: u128) -> TransactionId {
    TransactionId::new(0, n)
}

fn entry(weight: i64, fee_base: u64, first_seen: u64) -> MempoolEntry {
    MempoolEntry { weight, fee_base, first_seen }
}

fn pool(pairs: &[(TransactionId, MempoolEntry)]) -> MempoolSnapshot {
    MempoolSnapshot::from_entries(pairs).expect("distinct keys")
}

#[test]
fn one_new_transaction_gives_one_added_row() {
    let a = id(0xA);
    let b = id(0xB);
    let prev = pool(&[(a, entry(100, 500, 1000))]);
    let curr = pool(&[(a, entry(100, 500, 1000)), (b, entry(50, 200, 2000))]);
    let table = Record::create_delta_from_pools(&prev, &curr);
    assert_eq!(
        table,
        DeltaTable {
            rows: vec![DeltaRow {
                txid: b,
                signed_weight: 50,
                fee_sat: 200,
                first_seen: Some(2000),
            }],
        }
    );
    assert_eq!(table.len(), 1);
}

#[test]
fn one_confirmed_transaction_gives_one_removed_row() {
    let a = id(0xA);
    let b = id(0xB);
    let prev = pool(&[(a, entry(100, 500, 1000)), (b, entry(50, 200, 2000))]);
    let curr = pool(&[(b, entry(50, 200, 2000))]);
    let table = Record::create_delta_from_pools(&prev, &curr);
    assert_eq!(
        table.rows,
        vec![DeltaRow { txid: a, signed_weight: -100, fee_sat: 500, first_seen: Some(1000) }]
    );
}

#[test]
fn delta_of_a_pool_against_itself_is_empty() {
    let entries = [
        (id(1), entry(400, 1200, 10)),
        (id(2), entry(800, 90, 20)),
        (id(3), entry(561, 7, 30)),
    ];
    let prev = pool(&entries);
    let curr = pool(&entries);
    let table = Record::create_delta_from_pools(&prev, &curr);
    assert_eq!(table.rows, Vec::<DeltaRow>::new());
    assert_eq!(table.len(), 0);

    let nothing = Record::create_delta_from_pools(&MempoolSnapshot::new(), &MempoolSnapshot::new());
    assert_eq!(nothing.len(), 0);
}

#[test]
fn delta_against_the_empty_pool_lists_every_entry_as_added() {
    let entries = [
        (id(30), entry(561, 7, 33)),
        (id(10), entry(400, 1200, 11)),
        (id(20), entry(800, 90, 22)),
    ];
    let curr = pool(&entries);
    let table = Record::create_delta_from_pools(&MempoolSnapshot::new(), &curr);
    assert_eq!(table.len(), 3);
    assert_eq!(
        table.rows,
        vec![
            DeltaRow { txid: id(10), signed_weight: 400, fee_sat: 1200, first_seen: Some(11) },
            DeltaRow { txid: id(20), signed_weight: 800, fee_sat: 90, first_seen: Some(22) },
            DeltaRow { txid: id(30), signed_weight: 561, fee_sat: 7, first_seen: Some(33) },
        ]
    );
    for row in table.rows.iter() {
        let held = curr.get(&row.txid).expect("row of a current entry");
        assert_eq!(row.signed_weight, held.weight as i128);
        assert_eq!(row.first_seen, Some(held.first_seen));
    }
}

#[test]
fn delta_against_an_emptied_pool_lists_every_entry_as_removed() {
    let prev = pool(&[(id(1), entry(400, 1200, 10)), (id(2), entry(800, 90, 20))]);
    let table = Record::create_delta_from_pools(&prev, &MempoolSnapshot::new());
    assert_eq!(
        table.rows,
        vec![
            DeltaRow { txid: id(1), signed_weight: -400, fee_sat: 1200, first_seen: Some(10) },
            DeltaRow { txid: id(2), signed_weight: -800, fee_sat: 90, first_seen: Some(20) },
        ]
    );
}

#[test]
fn rows_count_the_keys_that_one_side_alone_holds() {
    // prev holds 1..=6, curr holds 4..=9: three leave, three enter, three stay.
    let mut before = Vec::new();
    for n in 1..=6u128 {
        before.push((id(n), entry(100 + n as i64, n as u64, 1000 + n as u64)));
    }
    let mut after = Vec::new();
    for n in 4..=9u128 {
        after.push((id(n), entry(200 + n as i64, 2 * n as u64, 2000 + n as u64)));
    }
    let prev = pool(&before);
    let curr = pool(&after);
    let table = Record::create_delta_from_pools(&prev, &curr);
    assert_eq!(table.len(), 3 + 3);
    for row in table.rows.iter() {
        assert!(!(prev.contains_key(&row.txid) && curr.contains_key(&row.txid)));
    }
    let keys: Vec<TransactionId> = table.rows.iter().map(|row| row.txid).collect();
    assert_eq!(keys, vec![id(1), id(2), id(3), id(7), id(8), id(9)]);
}

#[test]
fn removed_rows_come_before_added_rows() {
    let prev = pool(&[(id(9), entry(1, 1, 1)), (id(5), entry(2, 2, 2))]);
    let curr = pool(&[(id(1), entry(3, 3, 3)), (id(7), entry(4, 4, 4))]);
    let table = Record::create_delta_from_pools(&prev, &curr);
    assert_eq!(
        table.rows,
        vec![
            DeltaRow { txid: id(5), signed_weight: -2, fee_sat: 2, first_seen: Some(2) },
            DeltaRow { txid: id(9), signed_weight: -1, fee_sat: 1, first_seen: Some(1) },
            DeltaRow { txid: id(1), signed_weight: 3, fee_sat: 3, first_seen: Some(3) },
            DeltaRow { txid: id(7), signed_weight: 4, fee_sat: 4, first_seen: Some(4) },
        ]
    );
}

#[test]
fn removed_row_is_taken_from_the_previous_entry() {
    let gone = id(77);
    let prev = pool(&[(gone, entry(1234, 999, 1_600_000_000)), (id(78), entry(5, 6, 7))]);
    let curr = pool(&[(id(78), entry(5, 6, 7)), (id(79), entry(8, 9, 10))]);
    let table = Record::create_delta_from_pools(&prev, &curr);
    let rows: Vec<&DeltaRow> = table.rows.iter().filter(|row| row.txid == gone).collect();
    assert_eq!(rows.len(), 1);
    let held = prev.get(&gone).expect("held before");
    assert_eq!(rows[0].signed_weight, -(held.weight as i128));
    assert_eq!(rows[0].signed_weight, -1234);
    assert_eq!(rows[0].fee_sat, 999);
    assert_eq!(rows[0].first_seen, Some(held.first_seen));
    assert_eq!(rows[0].first_seen, Some(1_600_000_000));
}

#[test]
fn a_changed_fee_or_weight_gives_no_row() {
    let a = id(0xA);
    let prev = pool(&[(a, entry(100, 500, 1000))]);
    let curr = pool(&[(a, entry(140, 9000, 1000))]);
    let table = Record::create_delta_from_pools(&prev, &curr);
    assert_eq!(table.rows, Vec::<DeltaRow>::new());
}

#[test]
fn the_negation_of_every_weight_fits_the_row() {
    let low = id(1);
    let high = id(2);
    let prev = pool(&[(low, entry(i64::MIN, 0, 0)), (high, entry(i64::MAX, u64::MAX, u64::MAX))]);
    let table = Record::create_delta_from_pools(&prev, &MempoolSnapshot::new());
    assert_eq!(
        table.rows,
        vec![
            DeltaRow {
                txid: low,
                signed_weight: 9_223_372_036_854_775_808,
                fee_sat: 0,
                first_seen: Some(0),
            },
            DeltaRow {
                txid: high,
                signed_weight: -9_223_372_036_854_775_807,
                fee_sat: u64::MAX,
                first_seen: Some(u64::MAX),
            },
        ]
    );
    let back = Record::create_delta_from_pools(&MempoolSnapshot::new(), &prev);
    assert_eq!(back.rows[0].signed_weight, i64::MIN as i128);
    assert_eq!(back.rows[1].signed_weight, i64::MAX as i128);
}

#[test]
fn keys_are_split_into_removed_and_added() {
    let prev = pool(&[(id(3), entry(1, 1, 1)), (id(1), entry(1, 1, 1)), (id(2), entry(1, 1, 1))]);
    let curr = pool(&[(id(4), entry(1, 1, 1)), (id(2), entry(1, 1, 1)), (id(0), entry(1, 1, 1))]);
    let (removed, added) = Record::delta_of_keys(&prev, &curr);
    assert_eq!(removed, vec![id(1), id(3)]);
    assert_eq!(added, vec![id(0), id(4)]);

    let (removed, added) = Record::delta_of_keys(&prev, &prev);
    assert_eq!(removed, Vec::<TransactionId>::new());
    assert_eq!(added, Vec::<TransactionId>::new());
}

#[test]
fn keys_that_differ_in_the_high_half_alone_are_different_keys() {
    let low = TransactionId::new(0, 5);
    let high = TransactionId::new(1, 5);
    let prev = pool(&[(low, entry(10, 1, 1))]);
    let curr = pool(&[(high, entry(20, 2, 2))]);
    let table = Record::create_delta_from_pools(&prev, &curr);
    assert_eq!(
        table.rows,
        vec![
            DeltaRow { txid: low, signed_weight: -10, fee_sat: 1, first_seen: Some(1) },
            DeltaRow { txid: high, signed_weight: 20, fee_sat: 2, first_seen: Some(2) },
        ]
    );
}

#[test]
fn a_large_pool_is_diffed_key_by_key() {
    let mut before = Vec::new();
    let mut after = Vec::new();
    for n in 0..2000u128 {
        // Scatter the keys so that neither list arrives in key order.
        let key = TransactionId::new(n % 7, (n * 7919) % 2003);
        if n % 3 != 0 {
            before.push((key, entry(n as i64, n as u64, n as u64)));
        }
        if n % 5 != 0 {
            after.push((key, entry(n as i64, n as u64, n as u64)));
        }
    }
    let prev = pool(&before);
    let curr = pool(&after);
    let table = Record::create_delta_from_pools(&prev, &curr);
    let mut removed = 0;
    let mut added = 0;
    for n in 0..2000u128 {
        let in_prev = n % 3 != 0;
        let in_curr = n % 5 != 0;
        if in_prev && !in_curr {
            removed += 1;
        }
        if in_curr && !in_prev {
            added += 1;
        }
    }
    assert_eq!(table.len(), removed + added);
    for (at, row) in table.rows.iter().enumerate() {
        if at < removed {
            assert!(prev.contains_key(&row.txid) && !curr.contains_key(&row.txid));
            assert_eq!(row.signed_weight, -(prev.get(&row.txid).unwrap().weight as i128));
        } else {
            assert!(curr.contains_key(&row.txid) && !prev.contains_key(&row.txid));
            assert_eq!(row.signed_weight, curr.get(&row.txid).unwrap().weight as i128);
        }
    }
}

#[test]
fn a_table_is_handed_out_by_columns() {
    let prev = pool(&[(id(0x1f), entry(300, 40, 5))]);
    let curr = pool(&[
        (TransactionId::new(1, 0), entry(100, 500, 1000)),
        (id(2), entry(50, 200, 2000)),
    ]);
    let table = Record::create_delta_from_pools(&prev, &curr);
    assert_eq!(
        table.columns(),
        DeltaColumns {
            txid: vec![
                String::from("000000000000000000000000000000000000000000000000000000000000001f"),
                String::from("0000000000000000000000000000000000000000000000000000000000000002"),
                String::from("0000000000000000000000000000000100000000000000000000000000000000"),
            ],
            signed_weight: vec![-300, 50, 100],
            fee_sat: vec![40, 200, 500],
            first_seen: vec![Some(5), Some(2000), Some(1000)],
        }
    );
    let nothing = DeltaTable { rows: vec![] };
    assert_eq!(
        nothing.columns(),
        DeltaColumns { txid: vec![], signed_weight: vec![], fee_sat: vec![], first_seen: vec![] }
    );
}
