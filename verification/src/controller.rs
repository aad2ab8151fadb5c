//! The controller's requests: initializing a cluster, adding learners and voters.
use crate::pb::common::Node;
use crate::pb::controller::AddLearnerRequest;
use crate::pb::controller::InitRequest;
use std::collections::BTreeMap;
use vstd::prelude::*;

verus! {

/// Why the controller refuses a request.
#[derive(Clone, Copy, Debug, PartialEq, Eq, Structural)]
pub enum ControllerError {
    /// An add-learner request without the node to add.
    NodeRequired,
}

/// The members of a new cluster, by node id: when several nodes share an
/// id, the last of them is kept.
pub open spec fn nodes_by_id_spec(nodes: Seq<Node>) -> Map<u64, Node>
    decreases nodes.len(),
{
    if nodes.len() == 0 {
        Map::empty()
    } else {
        nodes_by_id_spec(nodes.drop_last()).insert(nodes.last().node_id, nodes.last())
    }
}

/// The members that an init request asks for, keyed by node id.
pub fn init_members(req: InitRequest) -> (members: BTreeMap<u64, Node>)
    ensures
        members@ == nodes_by_id_spec(req.nodes@),
{
    let mut members: BTreeMap<u64, Node> = BTreeMap::new();
    let ghost all = req.nodes@;
    for node in it: req.nodes
        invariant
            it.seq() == all,
            members@ == nodes_by_id_spec(it.seq().take(it.index())),
    {
        let ghost i = it.index();
        proof {
            assert(it.seq().take(i + 1).drop_last() =~= it.seq().take(i));
        }
        members.insert(node.node_id, node);
    }
    assert(all.take(all.len() as int) =~= all);
    members
}

/// The learner that an add-learner request asks for: its id and the node.
pub fn learner_of(req: AddLearnerRequest) -> (r: Result<(u64, Node), ControllerError>)
    ensures
        match req.node {
            Some(n) => r matches Ok((id, node)) && id == n.node_id && node == n,
            None => r == Err::<(u64, Node), ControllerError>(ControllerError::NodeRequired),
        },
{
    match req.node {
        Some(node) => Ok((node.node_id, node)),
        None => Err(ControllerError::NodeRequired),
    }
}

/// The voters that adding `node` as a voter adds: the node, under its id.
pub fn voters_to_add(node: Node) -> (voters: BTreeMap<u64, Node>)
    ensures
        voters@ == Map::<u64, Node>::empty().insert(node.node_id, node),
{
    let mut voters: BTreeMap<u64, Node> = BTreeMap::new();
    voters.insert(node.node_id, node);
    voters
}

/// Every node of an init request becomes a member, under its own id, and
/// the member under an id is the last node of the request with that id.
pub proof fn lemma_init_members(nodes: Seq<Node>, k: int)
    requires
        0 <= k < nodes.len(),
        forall|j: int| k < j < nodes.len() ==> (#[trigger] nodes[j]).node_id != nodes[k].node_id,
    ensures
        nodes_by_id_spec(nodes).contains_key(nodes[k].node_id),
        nodes_by_id_spec(nodes)[nodes[k].node_id] == nodes[k],
    decreases nodes.len(),
{
    if k < nodes.len() - 1 {
        let init = nodes.drop_last();
        assert(init[k] == nodes[k]);
        assert forall|j: int| k < j < init.len() implies (#[trigger] init[j]).node_id
            != init[k].node_id by {
            assert(init[j] == nodes[j]);
        }
        lemma_init_members(init, k);
    }
}

/// The members of an init request are exactly the ids of its nodes.
pub proof fn lemma_init_members_ids(nodes: Seq<Node>, id: u64)
    ensures
        nodes_by_id_spec(nodes).contains_key(id) <==> exists|j: int|
            0 <= j < nodes.len() && (#[trigger] nodes[j]).node_id == id,
    decreases nodes.len(),
{
    if nodes.len() > 0 {
        let init = nodes.drop_last();
        lemma_init_members_ids(init, id);
        if nodes_by_id_spec(nodes).contains_key(id) {
            if nodes.last().node_id != id {
                let j = choose|j: int| 0 <= j < init.len() && (#[trigger] init[j]).node_id == id;
                assert(nodes[j] == init[j]);
            } else {
                assert(nodes[nodes.len() - 1].node_id == id);
            }
        } else {
            assert forall|j: int| 0 <= j < nodes.len() implies (#[trigger] nodes[j]).node_id
                != id by {
                if j < nodes.len() - 1 {
                    assert(nodes[j] == init[j]);
                }
            }
        }
    }
}

} // verus!
