use raft_service_rs::pb::internal::snapshot_request::Payload;
use raft_service_rs::pb::internal::LeaderId;
use raft_service_rs::pb::internal::SnapshotRequest;
use raft_service_rs::pb::internal::SnapshotRequestMeta;
use raft_service_rs::pb::internal::SnapshotResponse;
use raft_service_rs::pb::internal::Vote;
use raft_service_rs::snapshot_transfer::snapshot_meta_from_request;
use raft_service_rs::snapshot_transfer::snapshot_request_meta;
use raft_service_rs::snapshot_transfer::snapshot_requests;
use raft_service_rs::snapshot_transfer::snapshot_response;
use raft_service_rs::snapshot_transfer::snapshot_response_vote;
use raft_service_rs::snapshot_transfer::SnapshotReceiver;
use raft_service_rs::snapshot_transfer::SnapshotResponseError;
use raft_service_rs::snapshot_transfer::SnapshotStreamError;
use raft_service_rs::snapshot_transfer::SNAPSHOT_CHUNK_SIZE;
use raft_service_rs::types::LogId;
use raft_service_rs::types::Membership;
use raft_service_rs::types::SnapshotMeta;
use raft_service_rs::types::StoredMembership;
use std::collections::BTreeMap;
use std::collections::BTreeSet;

fn request_meta(id: &str) -> SnapshotRequestMeta {
    SnapshotRequestMeta {
        vote: None,
        last_log_id: None,
        last_membership_log_id: None,
        last_membership: None,
        snapshot_id: id.to_string(),
    }
}

fn chunk_lens(reqs: &[SnapshotRequest]) -> Vec<usize> {
    reqs[1..]
        .iter()
        .map(|r| match &r.payload {
            Some(Payload::Chunk(c)) => c.len(),
            _ => panic!("not a chunk"),
        })
        .collect()
}

fn receive(reqs: Vec<SnapshotRequest>) -> Result<(SnapshotRequestMeta, Vec<u8>), SnapshotStreamError> {
    let mut receiver = SnapshotReceiver::new();
    for req in reqs {
        receiver.receive(req)?;
    }
    receiver.finish()
}

#[test]
fn into_meta_and_into_data_chunk() {
    let meta = SnapshotRequest { payload: Some(Payload::Meta(request_meta("s1"))) };
    assert_eq!(meta.clone().into_meta().unwrap().snapshot_id, "s1");
    assert!(meta.into_data_chunk().is_none());
    let chunk = SnapshotRequest { payload: Some(Payload::Chunk(vec![1, 2, 3])) };
    assert_eq!(chunk.clone().into_data_chunk(), Some(vec![1, 2, 3]));
    assert!(chunk.into_meta().is_none());
    let empty = SnapshotRequest { payload: None };
    assert!(empty.clone().into_meta().is_none());
    assert!(empty.into_data_chunk().is_none());
}

#[test]
fn small_snapshot_is_one_chunk() {
    let reqs = snapshot_requests(request_meta("s"), &[1, 2, 3]);
    assert_eq!(reqs.len(), 2);
    assert_eq!(chunk_lens(&reqs), vec![3]);
}

#[test]
fn empty_snapshot_has_no_chunk() {
    let reqs = snapshot_requests(request_meta("s"), &[]);
    assert_eq!(reqs.len(), 1);
    let (meta, data) = receive(reqs).unwrap();
    assert_eq!(meta.snapshot_id, "s");
    assert!(data.is_empty());
}

#[test]
fn large_snapshot_is_cut_in_full_chunks() {
    let data: Vec<u8> = (0..(2 * SNAPSHOT_CHUNK_SIZE + 5)).map(|i| (i % 251) as u8).collect();
    let reqs = snapshot_requests(request_meta("big"), &data);
    assert_eq!(chunk_lens(&reqs), vec![SNAPSHOT_CHUNK_SIZE, SNAPSHOT_CHUNK_SIZE, 5]);
    let (meta, got) = receive(reqs).unwrap();
    assert_eq!(meta.snapshot_id, "big");
    assert_eq!(got, data);
}

#[test]
fn exact_multiple_has_no_short_chunk() {
    let data = vec![7u8; SNAPSHOT_CHUNK_SIZE];
    let reqs = snapshot_requests(request_meta("m"), &data);
    assert_eq!(chunk_lens(&reqs), vec![SNAPSHOT_CHUNK_SIZE]);
}

#[test]
fn receiver_refusals() {
    assert_eq!(receive(vec![]).unwrap_err(), SnapshotStreamError::Empty);
    let chunk = SnapshotRequest { payload: Some(Payload::Chunk(vec![1])) };
    assert_eq!(receive(vec![chunk.clone()]).unwrap_err(), SnapshotStreamError::FirstNotMeta);
    let meta = SnapshotRequest { payload: Some(Payload::Meta(request_meta("x"))) };
    assert_eq!(
        receive(vec![meta.clone(), chunk.clone(), meta.clone()]).unwrap_err(),
        SnapshotStreamError::ChunkNotData
    );
    let mut receiver = SnapshotReceiver::new();
    receiver.receive(meta).unwrap();
    receiver.receive(chunk).unwrap();
    assert_eq!(
        receiver.receive(SnapshotRequest { payload: None }),
        Err(SnapshotStreamError::ChunkNotData)
    );
    let (_, data) = receiver.finish().unwrap();
    assert_eq!(data, vec![1]);
}

#[test]
fn snapshot_metadata_survives_the_transfer() {
    let vote = Vote { leader_id: Some(LeaderId { term: 4, node_id: 2 }), committed: true };
    let mut nodes = BTreeMap::new();
    nodes.insert(2, raft_service_rs::pb::common::Node { node_id: 2, rpc_addr: "h:2".to_string() });
    let meta = SnapshotMeta {
        last_log_id: Some(LogId { leader_id: 4, index: 17 }),
        last_membership: StoredMembership {
            log_id: Some(LogId { leader_id: 3, index: 11 }),
            membership: Membership { configs: vec![BTreeSet::from([2u64])], nodes },
        },
        snapshot_id: "4-17-1".to_string(),
    };
    let sent = snapshot_request_meta(vote, &meta);
    assert_eq!(sent.last_log_id.unwrap().index, 17);
    let (got_vote, got) = snapshot_meta_from_request(sent);
    assert_eq!(got_vote, vote);
    assert_eq!(got.last_log_id, meta.last_log_id);
    assert_eq!(got.last_membership.log_id, meta.last_membership.log_id);
    assert_eq!(got.last_membership.membership.configs, meta.last_membership.membership.configs);
    assert_eq!(got.last_membership.membership.nodes[&2].rpc_addr, "h:2");
    assert_eq!(got.snapshot_id, "4-17-1");
}

#[test]
fn snapshot_response_needs_a_vote() {
    let vote = Vote { leader_id: Some(LeaderId { term: 1, node_id: 1 }), committed: false };
    assert_eq!(snapshot_response_vote(snapshot_response(vote)), Ok(vote));
    assert_eq!(
        snapshot_response_vote(SnapshotResponse { vote: None }),
        Err(SnapshotResponseError::MissingVote)
    );
}
