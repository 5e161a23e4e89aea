use gossip_engine::bloom::filter_test;
use gossip_engine::record::{read_u64_le, Gossipable, Record, MAX_PAYLOAD_LEN};
use gossip_engine::store::RecordSet;
use gossip_engine::SetError;
use std::cell::Cell;

fn filled_set(ids: &[u64]) -> RecordSet {
    let mut s = RecordSet::new();
    for &id in ids {
        let r = Record::new(id, vec![id as u8]);
        assert!(s.add(r).is_ok());
    }
    s
}

/// Uniqueness: repeated ids collapse to one record per distinct id.
#[test]
fn uniqueness_repeated_ids() {
    let mut s = RecordSet::new();
    for &id in &[1u64, 2, 1, 3, 2, 1, 3, 3] {
        assert!(s.add(Record::new(id, vec![0u8])).is_ok());
    }
    assert_eq!(s.len(), 3);
    assert!(s.contains(1));
    assert!(s.contains(2));
    assert!(s.contains(3));
    assert!(!s.contains(4));
}

/// Idempotence: adding the same record twice succeeds both times and
/// leaves the membership unchanged.
#[test]
fn add_twice_is_noop() {
    let mut s = RecordSet::new();
    let r = Record::new(7, vec![1u8, 2, 3]);
    assert!(s.add(r.clone()).is_ok());
    assert_eq!(s.len(), 1);
    assert!(s.add(r).is_ok());
    assert_eq!(s.len(), 1);
    assert_eq!(s.get(0).payload, vec![1u8, 2, 3]);
}

/// Two adds with distinct ids both land; the count grows by exactly two.
#[test]
fn distinct_adds_both_present() {
    let mut s = filled_set(&[10, 11]);
    let before = s.len();
    assert!(s.add(Record::new(100, vec![0u8])).is_ok());
    assert!(s.add(Record::new(101, vec![0u8])).is_ok());
    assert_eq!(s.len(), before + 2);
    assert!(s.contains(100));
    assert!(s.contains(101));
}

/// Filter soundness: every stored id passes the membership test of the
/// summary built over the store, so the peer-side answer to our own
/// summary is empty.
#[test]
fn no_false_negatives() {
    let mut s = filled_set(&[5, 99, 12345, u64::MAX, 0]);
    let (filter, salt_bytes) = s.get_filter().unwrap();
    let salt = read_u64_le(salt_bytes.as_slice(), 0);
    for i in 0..s.len() {
        let id = s.get(i).id.v;
        assert!(filter_test(&filter, salt, id));
    }
    let missing = s.missing_from(&filter, salt);
    assert_eq!(missing.len(), 0);
}

/// An empty store's summary reports everything absent: false positives
/// cannot occur against an all-zero filter.
#[test]
fn empty_filter_matches_nothing() {
    let mut empty = RecordSet::new();
    let (filter, salt_bytes) = empty.get_filter().unwrap();
    let salt = read_u64_le(salt_bytes.as_slice(), 0);
    for id in [0u64, 1, 42, u64::MAX] {
        assert!(!filter_test(&filter, salt, id));
    }
}

/// A false positive on an absent id is tolerated: the test may answer
/// either way, and the only cost is a smaller peer answer.
#[test]
fn false_positives_only_shrink_the_answer() {
    let mut s = filled_set(&[1, 2, 3]);
    let (filter, salt_bytes) = s.get_filter().unwrap();
    let salt = read_u64_le(salt_bytes.as_slice(), 0);
    let peer = filled_set(&[1, 2, 3, 4, 5, 6]);
    let missing = peer.missing_from(&filter, salt);
    // Records 1..3 are reported present for sure; of 4..6 a false
    // positive may hide some, never invent one.
    assert!(missing.len() <= 3);
    for r in &missing {
        assert!(r.id.v >= 4);
    }
}

/// Successive summaries use fresh salts, so their salt bytes differ.
#[test]
fn fresh_salt_per_summary() {
    let mut s = filled_set(&[8, 9]);
    let (_, salt_a) = s.get_filter().unwrap();
    let (_, salt_b) = s.get_filter().unwrap();
    assert_ne!(salt_a, salt_b);
}

/// A bounded store rejects an overflowing add with a capacity error and
/// keeps its membership.
#[test]
fn capacity_error_when_full() {
    let mut s = RecordSet::with_capacity(1);
    assert!(s.add(Record::new(1, vec![0u8])).is_ok());
    let r = s.add(Record::new(2, vec![0u8]));
    assert_eq!(r, Err(SetError::CapacityError));
    assert_eq!(s.len(), 1);
    // A duplicate of the stored record is still a successful no-op.
    assert!(s.add(Record::new(1, vec![0u8])).is_ok());
}

/// An oversized payload fails the store's validation check.
#[test]
fn oversized_payload_rejected() {
    let mut s = RecordSet::new();
    let r = s.add(Record::new(3, vec![0u8; MAX_PAYLOAD_LEN + 1]));
    assert_eq!(r, Err(SetError::SerializationError));
    assert_eq!(s.len(), 0);
}

/// The record codec round-trips, with the exact little-endian layout.
#[test]
fn record_codec_round_trip() {
    let r = Record::new(0x0102030405060708, vec![9u8, 10]);
    let bytes = r.serialize().unwrap();
    assert_eq!(bytes, vec![8u8, 7, 6, 5, 4, 3, 2, 1, 9, 10]);
    let mut d = Record::new(0, vec![]);
    assert!(d.deserialize(bytes.as_slice()).is_ok());
    assert_eq!(d.id.v, 0x0102030405060708);
    assert_eq!(d.payload, vec![9u8, 10]);
    assert_eq!(d.get_id().v, 0x0102030405060708);
}

/// Bytes shorter than an identifier are not a record.
#[test]
fn short_bytes_do_not_deserialize() {
    let mut d = Record::new(5, vec![1u8]);
    let r = d.deserialize(&[1u8, 2, 3]);
    assert_eq!(r, Err(SetError::SerializationError));
    // The failed decode left the record as it was.
    assert_eq!(d.id.v, 5);
    assert_eq!(d.payload, vec![1u8]);
}

/// `iterate` visits every record when the predicate keeps going, and
/// stops early when it signals stop.
#[test]
fn iterate_visits_and_stops() {
    let s = filled_set(&[1, 2, 3, 4]);
    let seen = Cell::new(0u32);
    s.iterate(|_r: &Record| {
        seen.set(seen.get() + 1);
        true
    });
    assert_eq!(seen.get(), 4);
    let early = Cell::new(0u32);
    s.iterate(|_r: &Record| {
        early.set(early.get() + 1);
        early.get() < 2
    });
    assert_eq!(early.get(), 2);
}
