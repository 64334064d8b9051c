use wtf::mempool::{MempoolEntry, MempoolSnapshot};
use wtf::txid::TransactionId;

fn entry(weight: i64) -> MempoolEntry {
    MempoolEntry { weight, fee_base: 10, first_seen: 20 }
}

#[test]
fn a_new_snapshot_is_empty() {
    let snapshot = MempoolSnapshot::new();
    assert_eq!(snapshot.len(), 0);
    assert!(snapshot.is_empty());
    assert!(!snapshot.contains_key(&TransactionId::new(0, 0)));
    assert_eq!(snapshot.get(&TransactionId::new(0, 0)), None);
    assert_eq!(snapshot.as_slice().len(), 0);
}

#[test]
fn from_entries_keeps_every_pair_under_its_key() {
    let a = TransactionId::new(2, 1);
    let b = TransactionId::new(1, 9);
    let c = TransactionId::new(1, 3);
    let snapshot = MempoolSnapshot::from_entries(&[(a, entry(1)), (b, entry(2)), (c, entry(3))])
        .expect("distinct keys");
    assert_eq!(snapshot.len(), 3);
    assert!(!snapshot.is_empty());
    assert_eq!(snapshot.get(&a), Some(entry(1)));
    assert_eq!(snapshot.get(&b), Some(entry(2)));
    assert_eq!(snapshot.get(&c), Some(entry(3)));
    assert_eq!(snapshot.get(&TransactionId::new(1, 4)), None);
    assert!(snapshot.contains_key(&c));
    assert!(!snapshot.contains_key(&TransactionId::new(3, 3)));
}

#[test]
fn a_snapshot_is_walked_in_key_order() {
    let a = TransactionId::new(2, 1);
    let b = TransactionId::new(1, 9);
    let c = TransactionId::new(1, 3);
    let snapshot = MempoolSnapshot::from_entries(&[(a, entry(1)), (b, entry(2)), (c, entry(3))])
        .expect("distinct keys");
    assert_eq!(snapshot.as_slice().to_vec(), vec![(c, entry(3)), (b, entry(2)), (a, entry(1))]);
}

#[test]
fn from_entries_refuses_a_key_given_twice() {
    let a = TransactionId::new(0, 1);
    let b = TransactionId::new(0, 2);
    assert_eq!(MempoolSnapshot::from_entries(&[(a, entry(1)), (b, entry(2)), (a, entry(3))]), None);
    assert_eq!(MempoolSnapshot::from_entries(&[(a, entry(1)), (a, entry(1))]), None);
    assert!(MempoolSnapshot::from_entries(&[(a, entry(1)), (b, entry(1))]).is_some());
    assert!(MempoolSnapshot::from_entries(&[]).is_some());
}

#[test]
fn a_large_snapshot_finds_every_key_it_was_given() {
    let mut pairs = Vec::new();
    for n in 0..500u128 {
        pairs.push((TransactionId::new(n % 3, (n * 37) % 1009), entry(n as i64)));
    }
    let snapshot = MempoolSnapshot::from_entries(&pairs).expect("distinct keys");
    assert_eq!(snapshot.len(), 500);
    for (txid, held) in pairs.iter() {
        assert!(snapshot.contains_key(txid));
        assert_eq!(snapshot.get(txid), Some(*held));
    }
    assert_eq!(snapshot.get(&TransactionId::new(4, 0)), None);
    let walked = snapshot.as_slice();
    for at in 1..walked.len() {
        assert!(walked[at - 1].0.lt(&walked[at].0));
    }
}

#[test]
fn a_clone_holds_the_same_pairs() {
    let a = TransactionId::new(7, 7);
    let snapshot = MempoolSnapshot::from_entries(&[(a, entry(1))]).expect("distinct keys");
    let copy = snapshot.clone();
    assert_eq!(copy, snapshot);
    assert_eq!(copy.get(&a), Some(entry(1)));
}

#[test]
fn an_identifier_is_its_thirty_two_bytes() {
    let mut bytes = [0u8; 32];
    for (at, byte) in bytes.iter_mut().enumerate() {
        *byte = (at as u8).wrapping_mul(7).wrapping_add(3);
    }
    let id = TransactionId::from_bytes(&bytes);
    assert_eq!(id.to_bytes(), bytes);

    let mut other = bytes;
    other[31] ^= 1;
    assert_ne!(TransactionId::from_bytes(&other), id);
    let mut other = bytes;
    other[0] ^= 0x80;
    assert_ne!(TransactionId::from_bytes(&other), id);
}

#[test]
fn the_bytes_are_read_as_a_little_endian_number() {
    let mut bytes = [0u8; 32];
    bytes[0] = 0x01;
    bytes[1] = 0x02;
    bytes[16] = 0x03;
    bytes[31] = 0x04;
    let id = TransactionId::from_bytes(&bytes);
    assert_eq!(id.lo, 0x0201);
    assert_eq!(id.hi, (0x04u128 << 120) | 0x03);
    assert_eq!(TransactionId::new(id.hi, id.lo), id);
    assert_eq!(TransactionId::new(0, 0).to_bytes(), [0u8; 32]);
    assert_eq!(TransactionId::new(u128::MAX, u128::MAX).to_bytes(), [0xffu8; 32]);
}

#[test]
fn identifiers_are_ordered_by_the_high_half_first() {
    let small = TransactionId::new(1, u128::MAX);
    let large = TransactionId::new(2, 0);
    assert!(small.lt(&large));
    assert!(!large.lt(&small));
    assert!(!small.lt(&small));
    assert!(TransactionId::new(2, 0).lt(&TransactionId::new(2, 1)));
    assert!(!TransactionId::new(2, 1).lt(&TransactionId::new(2, 0)));
}

#[test]
fn an_identifier_is_written_in_hexadecimal_last_byte_first() {
    let mut bytes = [0u8; 32];
    for (at, byte) in bytes.iter_mut().enumerate() {
        *byte = at as u8;
    }
    assert_eq!(
        TransactionId::from_bytes(&bytes).to_text(),
        "1f1e1d1c1b1a191817161514131211100f0e0d0c0b0a09080706050403020100"
    );
    assert_eq!(
        TransactionId::new(0, 0xA).to_text(),
        "000000000000000000000000000000000000000000000000000000000000000a"
    );
    assert_eq!(
        TransactionId::new(u128::MAX, 0).to_text(),
        "ffffffffffffffffffffffffffffffff00000000000000000000000000000000"
    );
    assert_eq!(
        TransactionId::new(0x0123_4567_89ab_cdef_0000_0000_0000_0000, 0xfedc_ba98).to_text(),
        "0123456789abcdef0000000000000000000000000000000000000000fedcba98"
    );
}

#[test]
fn the_first_transaction_of_the_chain_is_written_as_it_is_known() {
    let bytes = [
        0x3b, 0xa3, 0xed, 0xfd, 0x7a, 0x7b, 0x12, 0xb2, 0x7a, 0xc7, 0x2c, 0x3e, 0x67, 0x76, 0x8f,
        0x61, 0x7f, 0xc8, 0x1b, 0xc3, 0x88, 0x8a, 0x51, 0x32, 0x3a, 0x9f, 0xb8, 0xaa, 0x4b, 0x1e,
        0x5e, 0x4a,
    ];
    assert_eq!(
        TransactionId::from_bytes(&bytes).to_text(),
        "4a5e1e4baab89f3a32518a88c31bc87f618f76673e2cc77ab2127b7afdeda33b"
    );
}
