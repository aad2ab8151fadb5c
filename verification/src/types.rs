//! The Raft types that the storage, the state machine and the conversions
//! work on: log ids, memberships, snapshot metadata and log states.
use crate::pb::common::Node;
use crate::pb::internal::Entry;
use crate::pb::internal::Vote;
use std::collections::BTreeMap;
use std::collections::BTreeSet;
use vstd::prelude::*;

verus! {

/// What a node is known by in specifications: its id and its address.
pub open spec fn node_view(n: Node) -> (u64, Seq<char>) {
    (n.node_id, n.rpc_addr@)
}

/// A copy of `node`.
pub fn copy_node(node: &Node) -> (r: Node)
    ensures
        node_view(r) == node_view(*node),
{
    Node { node_id: node.node_id, rpc_addr: node.rpc_addr.clone() }
}

/// The id of a log entry: the committed leader id (the term) and the index.
#[derive(Clone, Copy, Debug, PartialEq, Eq, Structural)]
pub struct LogId {
    pub leader_id: u64,
    pub index: u64,
}

/// A cluster membership: its voter configurations (two during a joint
/// change) and every node that it knows, learners included.
#[derive(Clone, Debug)]
pub struct Membership {
    pub configs: Vec<BTreeSet<u64>>,
    pub nodes: BTreeMap<u64, Node>,
}

/// The abstract content of a membership: the voter sets, in order, and the node map.
pub type MembershipView = (Seq<Set<u64>>, Map<u64, (u64, Seq<char>)>);

/// The node map seen through `node_view`.
pub open spec fn nodes_view(m: Map<u64, Node>) -> Map<u64, (u64, Seq<char>)> {
    m.map_values(|n: Node| node_view(n))
}

impl View for Membership {
    type V = MembershipView;

    open spec fn view(&self) -> MembershipView {
        (self.configs@.map_values(|c: BTreeSet<u64>| c@), nodes_view(self.nodes@))
    }
}

impl Membership {
    /// A membership with no voter configuration and no node.
    pub fn empty() -> (m: Membership)
        ensures
            m@.0 == Seq::<Set<u64>>::empty(),
            m@.1 == Map::<u64, (u64, Seq<char>)>::empty(),
    {
        let m = Membership { configs: Vec::new(), nodes: BTreeMap::new() };
        assert(m@.0 =~= Seq::<Set<u64>>::empty());
        assert(m@.1 =~= Map::<u64, (u64, Seq<char>)>::empty());
        m
    }

    /// A copy of this membership.
    pub fn copy(&self) -> (r: Membership)
        ensures
            r@ == self@,
            r.nodes@ == self.nodes@,
    {
        let mut configs: Vec<BTreeSet<u64>> = Vec::new();
        let mut i: usize = 0;
        while i < self.configs.len()
            invariant
                i <= self.configs.len(),
                configs@.len() == i,
                forall|j: int| 0 <= j < i ==> #[trigger] configs@[j]@ == self.configs@[j]@,
            decreases self.configs.len() - i,
        {
            configs.push(self.configs[i].clone());
            i += 1;
        }
        let r = Membership { configs, nodes: self.nodes.clone() };
        assert(r@.0 =~= self@.0);
        r
    }
}

/// A membership and the id of the log entry that introduced it.
#[derive(Clone, Debug)]
pub struct StoredMembership {
    pub log_id: Option<LogId>,
    pub membership: Membership,
}

impl View for StoredMembership {
    type V = (Option<LogId>, MembershipView);

    open spec fn view(&self) -> (Option<LogId>, MembershipView) {
        (self.log_id, self.membership@)
    }
}

impl StoredMembership {
    /// The membership of a node that has applied nothing yet.
    pub fn initial() -> (m: StoredMembership)
        ensures
            m.log_id is None,
            m.membership@.0 == Seq::<Set<u64>>::empty(),
            m.membership@.1 == Map::<u64, (u64, Seq<char>)>::empty(),
    {
        StoredMembership { log_id: None, membership: Membership::empty() }
    }

    /// A copy of this stored membership.
    pub fn copy(&self) -> (r: StoredMembership)
        ensures
            r@ == self@,
            r.membership.nodes@ == self.membership.nodes@,
    {
        StoredMembership { log_id: self.log_id, membership: self.membership.copy() }
    }
}

/// The metadata of a snapshot: the last log id and membership it covers, and its id.
#[derive(Clone, Debug)]
pub struct SnapshotMeta {
    pub last_log_id: Option<LogId>,
    pub last_membership: StoredMembership,
    pub snapshot_id: String,
}

impl View for SnapshotMeta {
    type V = (Option<LogId>, (Option<LogId>, MembershipView), Seq<char>);

    open spec fn view(&self) -> (Option<LogId>, (Option<LogId>, MembershipView), Seq<char>) {
        (self.last_log_id, self.last_membership@, self.snapshot_id@)
    }
}

/// A snapshot: its metadata and the serialized application state.
#[derive(Clone, Debug)]
pub struct Snapshot {
    pub meta: SnapshotMeta,
    pub snapshot: Vec<u8>,
}

/// What the log holds: the last purged log id and the last log id.
#[derive(Clone, Copy, Debug, PartialEq, Eq, Structural)]
pub struct LogState {
    pub last_purged_log_id: Option<LogId>,
    pub last_log_id: Option<LogId>,
}

/// What a new log entry carries: nothing, an application request
/// (serialized), or a membership.
#[derive(Clone, Debug)]
pub enum EntryPayload {
    Blank,
    Normal(Vec<u8>),
    Membership(Membership),
}

/// The leader's request to replicate entries, as Raft sees it.
#[derive(Clone, Debug)]
pub struct AppendEntriesRequest {
    pub vote: Vote,
    pub prev_log_id: Option<LogId>,
    pub entries: Vec<Entry>,
    pub leader_commit: Option<LogId>,
}

/// The answer to a vote request, as Raft sees it.
#[derive(Clone, Copy, Debug)]
pub struct VoteResponse {
    pub vote: Vote,
    pub vote_granted: bool,
    pub last_log_id: Option<LogId>,
}

/// The outcome of a client write, as Raft sees it.
#[derive(Clone, Debug)]
pub struct ClientWriteResponse<R> {
    pub log_id: LogId,
    pub data: R,
    pub membership: Option<Membership>,
}

} // verus!
