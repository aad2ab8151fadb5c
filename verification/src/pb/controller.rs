//! Messages of the controller service.
use crate::pb::common::LogId;
use crate::pb::common::Membership;
use crate::pb::common::Node;
use vstd::prelude::*;

verus! {

/// Asks a node to initialize a new cluster made of `nodes`.
#[derive(Clone, Debug)]
pub struct InitRequest {
    pub nodes: Vec<Node>,
}

/// Asks the leader to add `node` as a learner.
#[derive(Clone, Debug)]
pub struct AddLearnerRequest {
    pub node: Option<Node>,
}

/// Asks the leader to change the voters to `members`.
#[derive(Clone, Debug)]
pub struct ChangeMembershipRequest {
    pub members: Vec<u64>,
    pub retain: bool,
}

/// The outcome of a committed membership change.
#[derive(Clone, Debug)]
pub struct ClientWriteResponse {
    pub log_id: Option<LogId>,
    pub membership: Option<Membership>,
}

/// The node's view of the membership and its other metrics, rendered as text.
#[derive(Clone, Debug)]
pub struct MetricsResponse {
    pub membership: Option<Membership>,
    pub other_metrics: String,
}

} // verus!
