use raft_service_rs::keys::bin_to_id;
use raft_service_rs::keys::id_to_bin;
use raft_service_rs::log_store::log_state;
use raft_service_rs::log_store::meta::LastPurged;
use raft_service_rs::log_store::meta::StoreMeta;
use raft_service_rs::log_store::meta::Vote as VoteMeta;
use raft_service_rs::log_store::purge_key_range;
use raft_service_rs::log_store::scan_key;
use raft_service_rs::log_store::truncate_key_range;
use raft_service_rs::log_store::IndexBound;
use raft_service_rs::log_store::IndexRange;
use raft_service_rs::log_store::LOGS_COLUMN;
use raft_service_rs::log_store::META_COLUMN;
use raft_service_rs::types::LogId;

#[test]
fn id_to_bin_is_big_endian() {
    assert_eq!(id_to_bin(1), vec![0, 0, 0, 0, 0, 0, 0, 1]);
    assert_eq!(id_to_bin(0x0102030405060708), vec![1, 2, 3, 4, 5, 6, 7, 8]);
    assert_eq!(id_to_bin(0), vec![0; 8]);
    assert_eq!(id_to_bin(u64::MAX), vec![0xff; 8]);
}

#[test]
fn bin_to_id_reads_first_eight_bytes() {
    assert_eq!(bin_to_id(&[0, 0, 0, 0, 0, 0, 1, 0]), 256);
    assert_eq!(bin_to_id(&[0, 0, 0, 0, 0, 0, 0, 7, 9, 9]), 7);
}

#[test]
fn key_encoding_roundtrips() {
    for id in [0u64, 1, 255, 256, 65535, 1 << 40, u64::MAX - 1, u64::MAX] {
        assert_eq!(bin_to_id(&id_to_bin(id)), id);
    }
}

#[test]
fn key_order_is_index_order() {
    let ids = [0u64, 1, 255, 256, 65535, 65536, 1 << 40, u64::MAX];
    for a in ids {
        for b in ids {
            assert_eq!(id_to_bin(a) < id_to_bin(b), a < b);
        }
    }
}

#[test]
fn range_contains_follows_its_bounds() {
    let r = IndexRange { start: IndexBound::Included(3), end: IndexBound::Excluded(6) };
    assert!(!r.contains(2));
    assert!(r.contains(3));
    assert!(r.contains(5));
    assert!(!r.contains(6));
    let r = IndexRange { start: IndexBound::Excluded(3), end: IndexBound::Included(6) };
    assert!(!r.contains(3));
    assert!(r.contains(6));
    let r = IndexRange { start: IndexBound::Unbounded, end: IndexBound::Unbounded };
    assert!(r.contains(0));
    assert!(r.contains(u64::MAX));
}

#[test]
fn range_read_start_keys() {
    let r = IndexRange { start: IndexBound::Included(3), end: IndexBound::Unbounded };
    assert_eq!(r.start_key(), id_to_bin(3));
    let r = IndexRange { start: IndexBound::Excluded(3), end: IndexBound::Unbounded };
    assert_eq!(r.start_key(), id_to_bin(4));
    let r = IndexRange { start: IndexBound::Unbounded, end: IndexBound::Included(9) };
    assert_eq!(r.start_key(), id_to_bin(0));
}

#[test]
fn scan_key_stops_outside_the_range() {
    let r = IndexRange { start: IndexBound::Included(3), end: IndexBound::Included(5) };
    assert_eq!(scan_key(&r, &id_to_bin(4)), Some(4));
    assert_eq!(scan_key(&r, &id_to_bin(5)), Some(5));
    assert_eq!(scan_key(&r, &id_to_bin(6)), None);
}

#[test]
fn range_read_of_stored_keys() {
    // Keys as the log column family keeps them: sorted bytewise.
    let mut keys: Vec<Vec<u8>> = [1u64, 2, 3, 255, 256, 300].iter().map(|i| id_to_bin(*i)).collect();
    keys.sort();
    let r = IndexRange { start: IndexBound::Included(2), end: IndexBound::Excluded(300) };
    let start = r.start_key();
    let mut read = Vec::new();
    for key in keys.iter().filter(|k| **k >= start) {
        match scan_key(&r, key) {
            Some(id) => read.push(id),
            None => break,
        }
    }
    assert_eq!(read, vec![2, 3, 255, 256]);
}

#[test]
fn log_state_falls_back_to_last_purged() {
    let purged = Some(LogId { leader_id: 1, index: 4 });
    let last = Some(LogId { leader_id: 2, index: 9 });
    let s = log_state(last, purged);
    assert_eq!(s.last_log_id, last);
    assert_eq!(s.last_purged_log_id, purged);
    let s = log_state(None, purged);
    assert_eq!(s.last_log_id, purged);
    let s = log_state(None, None);
    assert_eq!(s.last_log_id, None);
    assert_eq!(s.last_purged_log_id, None);
}

#[test]
fn truncate_and_purge_key_ranges() {
    let (from, to) = truncate_key_range(LogId { leader_id: 1, index: 10 });
    assert_eq!(from, id_to_bin(10));
    assert_eq!(to, id_to_bin(u64::MAX));
    let (from, to) = purge_key_range(LogId { leader_id: 1, index: 10 });
    assert_eq!(from, id_to_bin(0));
    assert_eq!(to, id_to_bin(11));
}

#[test]
fn truncate_and_purge_delete_the_right_entries() {
    let stored: Vec<u64> = vec![1, 5, 9, 10, 11, 20, u64::MAX];
    let in_range = |k: &Vec<u8>, from: &Vec<u8>, to: &Vec<u8>| from <= k && k < to;
    let (from, to) = truncate_key_range(LogId { leader_id: 1, index: 10 });
    let kept: Vec<u64> = stored.iter().copied().filter(|i| !in_range(&id_to_bin(*i), &from, &to)).collect();
    assert_eq!(kept, vec![1, 5, 9, u64::MAX]);
    let (from, to) = purge_key_range(LogId { leader_id: 1, index: 10 });
    let kept: Vec<u64> = stored.iter().copied().filter(|i| !in_range(&id_to_bin(*i), &from, &to)).collect();
    assert_eq!(kept, vec![11, 20, u64::MAX]);
}

#[test]
fn metadata_keys_and_columns() {
    assert_eq!(<LastPurged as StoreMeta>::KEY, "last_purged_log_id");
    assert_eq!(<VoteMeta as StoreMeta>::KEY, "vote");
    assert_eq!(META_COLUMN, "meta");
    assert_eq!(LOGS_COLUMN, "logs");
}

/// A range read over a log column family held as sorted keys.
fn read_range(logs: &std::collections::BTreeMap<Vec<u8>, LogId>, r: &IndexRange) -> Vec<LogId> {
    let start = r.start_key();
    let mut read = Vec::new();
    for (key, id) in logs.range(start..) {
        match scan_key(r, key) {
            Some(_) => read.push(*id),
            None => break,
        }
    }
    read
}

#[test]
fn read_after_append_returns_the_appended_entries() {
    let es: Vec<LogId> = (3u64..=9).map(|i| LogId { leader_id: 1 + i / 5, index: i }).collect();
    let mut logs = std::collections::BTreeMap::new();
    for e in &es {
        logs.insert(id_to_bin(e.index), *e);
    }
    let all = IndexRange { start: IndexBound::Included(3), end: IndexBound::Included(9) };
    assert_eq!(read_range(&logs, &all), es);
    let ranges = [
        IndexRange { start: IndexBound::Excluded(4), end: IndexBound::Excluded(8) },
        IndexRange { start: IndexBound::Unbounded, end: IndexBound::Included(5) },
        IndexRange { start: IndexBound::Included(7), end: IndexBound::Unbounded },
        IndexRange { start: IndexBound::Included(10), end: IndexBound::Unbounded },
    ];
    for r in &ranges {
        let expected: Vec<LogId> = es.iter().copied().filter(|e| r.contains(e.index)).collect();
        assert_eq!(read_range(&logs, r), expected);
    }
}

#[test]
fn log_state_after_appends_truncations_and_purges() {
    let mut logs: std::collections::BTreeMap<Vec<u8>, LogId> = std::collections::BTreeMap::new();
    let state = |logs: &std::collections::BTreeMap<Vec<u8>, LogId>, p: Option<LogId>| {
        log_state(logs.values().next_back().copied(), p)
    };
    let ordered = |a: Option<LogId>, b: Option<LogId>| match (a, b) {
        (None, _) => true,
        (Some(_), None) => false,
        (Some(x), Some(y)) => x.leader_id < y.leader_id || (x.leader_id == y.leader_id && x.index <= y.index),
    };
    for i in 1u64..=6 {
        logs.insert(id_to_bin(i), LogId { leader_id: 1, index: i });
    }
    let (from, to) = truncate_key_range(LogId { leader_id: 1, index: 5 });
    logs.retain(|k, _| !(from <= *k && *k < to));
    for i in 5u64..=8 {
        logs.insert(id_to_bin(i), LogId { leader_id: 2, index: i });
    }
    let upto = LogId { leader_id: 2, index: 6 };
    let (from, to) = purge_key_range(upto);
    logs.retain(|k, _| !(from <= *k && *k < to));
    let s = state(&logs, Some(upto));
    assert_eq!(s.last_log_id, Some(LogId { leader_id: 2, index: 8 }));
    assert_eq!(s.last_purged_log_id, Some(upto));
    assert!(ordered(s.last_purged_log_id, s.last_log_id));
    let upto = LogId { leader_id: 2, index: 8 };
    let (from, to) = purge_key_range(upto);
    logs.retain(|k, _| !(from <= *k && *k < to));
    let s = state(&logs, Some(upto));
    assert!(logs.is_empty());
    assert_eq!(s.last_log_id, Some(upto));
    assert!(ordered(s.last_purged_log_id, s.last_log_id));
}
