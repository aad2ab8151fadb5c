//! Messages shared by the internal and the controller service.
use std::collections::BTreeMap;
use vstd::prelude::*;

verus! {

/// A cluster member and the address of its Raft service.
#[derive(Clone, Debug)]
pub struct Node {
    pub node_id: u64,
    pub rpc_addr: String,
}

/// The position of a log entry: the term of the leader that proposed it and its index.
#[derive(Clone, Copy, Debug, PartialEq, Eq, Structural)]
pub struct LogId {
    pub term: u64,
    pub index: u64,
}

/// One voter configuration, as the set of its node ids.
#[derive(Clone, Debug)]
pub struct NodeIdSet {
    pub node_ids: BTreeMap<u64, ()>,
}

/// A (possibly joint) cluster membership: its voter configurations and all
/// the nodes that the cluster knows, learners included.
#[derive(Clone, Debug)]
pub struct Membership {
    pub configs: Vec<NodeIdSet>,
    pub nodes: BTreeMap<u64, Node>,
}

} // verus!
