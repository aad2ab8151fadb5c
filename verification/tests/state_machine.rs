use raft_service_rs::pb::common::Membership as PbMembership;
use raft_service_rs::pb::common::Node;
use raft_service_rs::pb::common::NodeIdSet;
use raft_service_rs::pb::internal::Entry;
use raft_service_rs::state_machine::current_snapshot;
use raft_service_rs::state_machine::stored_snapshot_of;
use raft_service_rs::state_machine::ApplyAction;
use raft_service_rs::state_machine::StateMachineStore;
use raft_service_rs::text::u64_to_decimal;
use raft_service_rs::types::EntryPayload;
use raft_service_rs::types::LogId;
use raft_service_rs::types::Membership;
use raft_service_rs::types::SnapshotMeta;
use raft_service_rs::types::StoredMembership;
use std::collections::BTreeMap;
use std::collections::BTreeSet;

fn pb_membership(voters: &[u64]) -> PbMembership {
    let mut nodes = BTreeMap::new();
    for i in voters {
        nodes.insert(*i, Node { node_id: *i, rpc_addr: format!("n{}", i) });
    }
    PbMembership {
        configs: vec![NodeIdSet { node_ids: voters.iter().map(|i| (*i, ())).collect() }],
        nodes,
    }
}

fn entry(term: u64, index: u64, payload: EntryPayload) -> Entry {
    Entry::new(LogId { leader_id: term, index }, payload)
}

#[test]
fn decimal_numerals() {
    assert_eq!(u64_to_decimal(0), "0");
    assert_eq!(u64_to_decimal(7), "7");
    assert_eq!(u64_to_decimal(10), "10");
    assert_eq!(u64_to_decimal(1234567890), "1234567890");
    assert_eq!(u64_to_decimal(u64::MAX), "18446744073709551615");
}

#[test]
fn new_store_has_applied_nothing() {
    let s = StateMachineStore::new();
    let (last, membership) = s.applied_state();
    assert_eq!(last, None);
    assert_eq!(membership.log_id, None);
    assert!(membership.membership.configs.is_empty());
    assert_eq!(s.snapshot_idx, 0);
}

#[test]
fn applying_entries_tracks_last_applied_and_membership() {
    let mut s = StateMachineStore::new();
    let a = s.apply_entry(entry(1, 1, EntryPayload::Blank));
    assert!(matches!(a, ApplyAction::Nothing));
    let a = s.apply_entry(entry(1, 2, EntryPayload::Membership(Membership::from_pb(pb_membership(&[1, 2])))));
    assert!(matches!(a, ApplyAction::Nothing));
    let a = s.apply_entry(entry(1, 3, EntryPayload::Normal(vec![9, 9])));
    match a {
        ApplyAction::Request(data) => assert_eq!(data, vec![9, 9]),
        ApplyAction::Nothing => panic!("the request must be applied"),
    }
    let (last, membership) = s.applied_state();
    assert_eq!(last, Some(LogId { leader_id: 1, index: 3 }));
    assert_eq!(membership.log_id, Some(LogId { leader_id: 1, index: 2 }));
    assert_eq!(membership.membership.configs, vec![BTreeSet::from([1, 2])]);
    s.apply_entry(entry(2, 4, EntryPayload::Membership(Membership::from_pb(pb_membership(&[1, 2, 3])))));
    let (last, membership) = s.applied_state();
    assert_eq!(last, Some(LogId { leader_id: 2, index: 4 }));
    assert_eq!(membership.log_id, Some(LogId { leader_id: 2, index: 4 }));
    assert_eq!(membership.membership.configs, vec![BTreeSet::from([1, 2, 3])]);
}

#[test]
fn snapshot_ids() {
    let mut s = StateMachineStore::new();
    let b = s.get_snapshot_builder();
    assert_eq!(b.snapshot_id(), "--1");
    s.apply_entry(entry(3, 10, EntryPayload::Blank));
    let b = s.get_snapshot_builder();
    assert_eq!(s.snapshot_idx, 2);
    assert_eq!(b.snapshot_idx, 2);
    assert_eq!(b.snapshot_id(), "3-10-2");
    let b2 = s.get_snapshot_builder();
    assert_ne!(b.snapshot_id(), b2.snapshot_id());
}

#[test]
fn build_snapshot_records_the_applied_state() {
    let mut s = StateMachineStore::new();
    s.apply_entry(entry(1, 5, EntryPayload::Membership(Membership::from_pb(pb_membership(&[1])))));
    let b = s.get_snapshot_builder();
    let snap = b.build_snapshot(vec![1, 2, 3]);
    assert_eq!(snap.meta.last_log_id, Some(LogId { leader_id: 1, index: 5 }));
    assert_eq!(snap.meta.last_membership.log_id, Some(LogId { leader_id: 1, index: 5 }));
    assert_eq!(snap.meta.snapshot_id, "1-5-1");
    assert_eq!(snap.snapshot, vec![1, 2, 3]);
    let stored = stored_snapshot_of(&snap);
    assert_eq!(stored.data, vec![1, 2, 3]);
    assert_eq!(stored.meta.snapshot_id, "1-5-1");
    let again = current_snapshot(Some(stored)).unwrap();
    assert_eq!(again.meta.snapshot_id, "1-5-1");
    assert!(current_snapshot(None).is_none());
}

#[test]
fn installed_snapshot_is_what_applied_state_reports() {
    let mut s = StateMachineStore::new();
    assert!(s.begin_receiving_snapshot().is_empty());
    let meta = SnapshotMeta {
        last_log_id: Some(LogId { leader_id: 7, index: 40 }),
        last_membership: StoredMembership {
            log_id: Some(LogId { leader_id: 6, index: 30 }),
            membership: Membership::from_pb(pb_membership(&[4, 5])),
        },
        snapshot_id: "7-40-3".to_string(),
    };
    let stored = s.install_snapshot(meta, vec![5, 5]);
    assert_eq!(stored.data, vec![5, 5]);
    let (last, membership) = s.applied_state();
    assert_eq!(last, Some(LogId { leader_id: 7, index: 40 }));
    assert_eq!(membership.log_id, Some(LogId { leader_id: 6, index: 30 }));
    assert_eq!(membership.membership.configs, vec![BTreeSet::from([4, 5])]);
    let mut fresh = StateMachineStore::new();
    fresh.update_state_machine_(&stored);
    assert_eq!(fresh.applied_state().0, Some(LogId { leader_id: 7, index: 40 }));
}
