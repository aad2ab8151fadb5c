use raft_service_rs::pb::common::LogId as PbLogId;
use raft_service_rs::pb::common::Membership as PbMembership;
use raft_service_rs::pb::common::Node;
use raft_service_rs::pb::common::NodeIdSet;
use raft_service_rs::pb::controller::ClientWriteResponse as PbClientWriteResponse;
use raft_service_rs::pb::internal::AppendEntriesRequest as PbAppendEntriesRequest;
use raft_service_rs::pb::internal::Entry;
use raft_service_rs::pb::internal::LeaderId;
use raft_service_rs::pb::internal::Vote;
use raft_service_rs::pb::internal::VoteResponse as PbVoteResponse;
use raft_service_rs::types::AppendEntriesRequest;
use raft_service_rs::types::ClientWriteResponse;
use raft_service_rs::types::EntryPayload;
use raft_service_rs::types::LogId;
use raft_service_rs::types::Membership;
use raft_service_rs::types::VoteResponse;
use std::cmp::Ordering;
use std::collections::BTreeMap;
use std::collections::BTreeSet;

fn node(id: u64) -> Node {
    Node { node_id: id, rpc_addr: format!("127.0.0.1:{}", 21000 + id) }
}

fn pb_membership() -> PbMembership {
    let set = |ids: &[u64]| NodeIdSet { node_ids: ids.iter().map(|i| (*i, ())).collect() };
    let mut nodes = BTreeMap::new();
    for i in 1..=4 {
        nodes.insert(i, node(i));
    }
    PbMembership { configs: vec![set(&[1, 2, 3]), set(&[2, 3, 4])], nodes }
}

#[test]
fn leader_ids_order_by_term_then_node() {
    let a = LeaderId { term: 1, node_id: 5 };
    let b = LeaderId { term: 2, node_id: 1 };
    let c = LeaderId { term: 2, node_id: 3 };
    assert_eq!(a.partial_cmp(&b), Some(Ordering::Less));
    assert_eq!(b.partial_cmp(&a), Some(Ordering::Greater));
    assert_eq!(b.partial_cmp(&b), Some(Ordering::Equal));
    assert_eq!(b.partial_cmp(&c), None);
    assert!(a < b);
    assert!(!(b < c) && !(c < b) && !(b <= c));
}

#[test]
fn leader_id_against_a_term() {
    let a = LeaderId { term: 3, node_id: 5 };
    assert!(!(a == 3u64));
    assert_eq!(a.partial_cmp(&3u64), Some(Ordering::Equal));
    assert_eq!(a.partial_cmp(&4u64), Some(Ordering::Less));
    assert_eq!(a.partial_cmp(&2u64), Some(Ordering::Greater));
}

#[test]
fn leader_id_accessors_and_text() {
    let a = LeaderId::new(3, 7);
    assert_eq!(a.term(), 3);
    assert_eq!(*a.node_id(), 7);
    assert_eq!(a.to_committed(), 3);
    assert_eq!(a.to_display_string(), "T3-N7");
}

#[test]
fn vote_accessors_and_text() {
    let v = Vote::from_leader_id(LeaderId::new(3, 7), true);
    assert_eq!(*v.leader_id(), LeaderId::new(3, 7));
    assert!(v.is_committed());
    assert_eq!(v.to_display_string(), "<T3-N7:Q>");
    let v = Vote::from_leader_id(LeaderId::new(12, 0), false);
    assert_eq!(v.to_display_string(), "<T12-N0:->");
    let v = Vote { leader_id: None, committed: false };
    assert_eq!(v.to_display_string(), "<T0-N0:->");
}

#[test]
fn log_id_conversions() {
    let l = LogId { leader_id: 4, index: 9 };
    let p: PbLogId = l.into();
    assert_eq!(p, PbLogId { term: 4, index: 9 });
    let back: LogId = p.into();
    assert_eq!(back, l);
}

#[test]
fn entry_new_and_accessors() {
    let l = LogId { leader_id: 2, index: 5 };
    let e = Entry::new(l, EntryPayload::Blank);
    assert!(e.app_data.is_none() && e.membership.is_none());
    assert_eq!(e.log_id(), l);
    let e = Entry::new(l, EntryPayload::Normal(vec![1, 2]));
    assert_eq!(e.app_data, Some(vec![1, 2]));
    let m = Membership::from_pb(pb_membership());
    let mut e = Entry::new(l, EntryPayload::Membership(m));
    assert!(e.app_data.is_none());
    let got = e.get_membership().unwrap();
    assert_eq!(got.configs, vec![BTreeSet::from([1, 2, 3]), BTreeSet::from([2, 3, 4])]);
    let (term, index) = e.log_id_parts();
    assert_eq!((*term, index), (2, 5));
    e.set_log_id(LogId { leader_id: 3, index: 8 });
    assert_eq!((e.term, e.index), (3, 8));
    assert!(e.membership.is_some());
    assert_eq!(e.index(), 8);
    assert_eq!(e.to_display_string(), "Entry{term=3,index=8}");
}

#[test]
fn membership_roundtrip() {
    let pb = pb_membership();
    let m = Membership::from_pb(pb.clone());
    assert_eq!(m.configs, vec![BTreeSet::from([1, 2, 3]), BTreeSet::from([2, 3, 4])]);
    assert_eq!(m.nodes.len(), 4);
    let back = PbMembership::from_membership(m);
    assert_eq!(back.configs.len(), 2);
    for (a, b) in back.configs.iter().zip(pb.configs.iter()) {
        assert_eq!(a.node_ids, b.node_ids);
    }
    assert_eq!(back.nodes[&3].rpc_addr, "127.0.0.1:21003");
}

#[test]
fn append_entries_request_conversions() {
    let vote = Vote::from_leader_id(LeaderId::new(5, 1), true);
    let req = AppendEntriesRequest {
        vote,
        prev_log_id: Some(LogId { leader_id: 4, index: 10 }),
        entries: vec![Entry::new(LogId { leader_id: 5, index: 11 }, EntryPayload::Blank)],
        leader_commit: None,
    };
    let pb = PbAppendEntriesRequest::from_request(req);
    assert_eq!(pb.vote, Some(vote));
    assert_eq!(pb.prev_log_id, Some(PbLogId { term: 4, index: 10 }));
    assert_eq!(pb.leader_commit, None);
    let back = AppendEntriesRequest::from_pb(pb);
    assert_eq!(back.vote, vote);
    assert_eq!(back.prev_log_id, Some(LogId { leader_id: 4, index: 10 }));
    assert_eq!(back.entries.len(), 1);
    assert_eq!(back.entries[0].index, 11);
}

#[test]
fn vote_response_conversions() {
    let vote = Vote::from_leader_id(LeaderId::new(5, 2), false);
    let resp = VoteResponse { vote, vote_granted: true, last_log_id: Some(LogId { leader_id: 5, index: 3 }) };
    let pb = PbVoteResponse::from_response(resp);
    assert_eq!(pb.vote, Some(vote));
    assert!(pb.vote_granted);
    assert_eq!(pb.last_log_id, Some(PbLogId { term: 5, index: 3 }));
    let back = VoteResponse::from_pb(pb);
    assert_eq!(back.vote, vote);
    assert_eq!(back.last_log_id, Some(LogId { leader_id: 5, index: 3 }));
}

#[test]
fn client_write_response_to_wire() {
    let resp = ClientWriteResponse {
        log_id: LogId { leader_id: 2, index: 7 },
        data: "ignored",
        membership: Some(Membership::from_pb(pb_membership())),
    };
    let pb = PbClientWriteResponse::from_response(resp);
    assert_eq!(pb.log_id, Some(PbLogId { term: 2, index: 7 }));
    assert_eq!(pb.membership.unwrap().configs.len(), 2);
    let resp = ClientWriteResponse { log_id: LogId { leader_id: 2, index: 8 }, data: (), membership: None };
    assert!(PbClientWriteResponse::from_response(resp).membership.is_none());
}
