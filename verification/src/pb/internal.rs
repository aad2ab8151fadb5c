//! Messages of the internal Raft service between cluster members.
pub mod snapshot_request;

use crate::pb::common::LogId;
use crate::pb::common::Membership;
use vstd::prelude::*;

verus! {

/// The leader of a term: the term and the id of the node elected in it.
#[derive(Clone, Copy, Debug, PartialEq, Eq, Structural)]
pub struct LeaderId {
    pub term: u64,
    pub node_id: u64,
}

/// A vote for a leader; `committed` once a quorum granted it.
#[derive(Clone, Copy, Debug, PartialEq, Eq, Structural)]
pub struct Vote {
    pub leader_id: Option<LeaderId>,
    pub committed: bool,
}

/// A log entry: its position, and either an application request (serialized)
/// or a membership change, or neither (a blank entry).
#[derive(Clone, Debug)]
pub struct Entry {
    pub term: u64,
    pub index: u64,
    pub app_data: Option<Vec<u8>>,
    pub membership: Option<Membership>,
}

/// A candidate's request for votes.
#[derive(Clone, Copy, Debug)]
pub struct VoteRequest {
    pub vote: Option<Vote>,
    pub last_log_id: Option<LogId>,
}

/// The answer to a vote request.
#[derive(Clone, Copy, Debug)]
pub struct VoteResponse {
    pub vote: Option<Vote>,
    pub vote_granted: bool,
    pub last_log_id: Option<LogId>,
}

/// The leader's request to replicate `entries` after `prev_log_id`.
#[derive(Clone, Debug)]
pub struct AppendEntriesRequest {
    pub vote: Option<Vote>,
    pub prev_log_id: Option<LogId>,
    pub entries: Vec<Entry>,
    pub leader_commit: Option<LogId>,
}

/// The first message of a snapshot transfer: who sends it and what it holds.
#[derive(Clone, Debug)]
pub struct SnapshotRequestMeta {
    pub vote: Option<Vote>,
    pub last_log_id: Option<LogId>,
    pub last_membership_log_id: Option<LogId>,
    pub last_membership: Option<Membership>,
    pub snapshot_id: String,
}

/// One message of a snapshot transfer.
#[derive(Clone, Debug)]
pub struct SnapshotRequest {
    pub payload: Option<snapshot_request::Payload>,
}

/// The receiver's answer to a snapshot transfer.
#[derive(Clone, Copy, Debug)]
pub struct SnapshotResponse {
    pub vote: Option<Vote>,
}

} // verus!
