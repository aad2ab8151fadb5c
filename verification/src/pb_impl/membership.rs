//! Conversions between the wire form of a membership and the Raft form.
use crate::pb::common::Membership as PbMembership;
use crate::pb::common::NodeIdSet;
use crate::types::Membership;
use std::collections::BTreeMap;
use std::collections::BTreeSet;
use vstd::prelude::*;
use vstd::std_specs::btree::spec_btree_keys_iter;
use vstd::std_specs::btree::spec_keys_iter;
use crate::types::nodes_view;
use crate::types::MembershipView;
use vstd::std_specs::iter::IteratorSpec;

verus! {

/// The set of the keys of `m`.
fn key_set(m: &BTreeMap<u64, ()>) -> (s: BTreeSet<u64>)
    ensures
        s@ == m@.dom(),
{
    let mut s: BTreeSet<u64> = BTreeSet::new();
    let keys = m.keys();
    let ghost full = spec_keys_iter(m).remaining();
    assert(keys.remaining().unref().to_set() == m@.dom());
    for k in it: keys
        invariant
            it.seq() == full,
            s@ == it.seq().take(it.index()).unref().to_set(),
    {
        let ghost i = it.index();
        proof {
            assert(it.seq().take(i + 1).unref() =~= it.seq().take(i).unref().push(*k));
            it.seq().take(i).unref().lemma_push_to_set_commute(*k);
        }
        s.insert(*k);
    }
    assert(full.take(full.len() as int) =~= full);
    s
}

/// The map that sends each element of `s` to `()`.
fn unit_map(s: &BTreeSet<u64>) -> (m: BTreeMap<u64, ()>)
    ensures
        m@.dom() == s@,
{
    let mut m: BTreeMap<u64, ()> = BTreeMap::new();
    let elems = s.iter();
    let ghost full = spec_btree_keys_iter(s).remaining();
    assert(full.unref().to_set() == s@);
    for k in it: elems
        invariant
            it.seq() == full,
            m@.dom() == it.seq().take(it.index()).unref().to_set(),
    {
        let ghost i = it.index();
        proof {
            assert(it.seq().take(i + 1).unref() =~= it.seq().take(i).unref().push(*k));
            it.seq().take(i).unref().lemma_push_to_set_commute(*k);
        }
        m.insert(*k, ());
    }
    assert(full.take(full.len() as int) =~= full);
    m
}

/// The abstract content of a wire membership: its voter sets, in order, and its node map.
pub open spec fn pb_membership_view(pb: PbMembership) -> MembershipView {
    (pb.configs@.map_values(|c: NodeIdSet| c.node_ids@.dom()), nodes_view(pb.nodes@))
}

impl Membership {
    /// The Raft form of a wire membership: each voter configuration becomes
    /// the set of its node ids; the node map is kept as it is.
    pub fn from_pb(membership: PbMembership) -> (m: Membership)
        ensures
            m@ == pb_membership_view(membership),
            m.nodes@ == membership.nodes@,
            m.configs@.len() == membership.configs@.len(),
    {
        let mut configs: Vec<BTreeSet<u64>> = Vec::new();
        let mut i: usize = 0;
        while i < membership.configs.len()
            invariant
                i <= membership.configs.len(),
                configs@.len() == i,
                forall|j: int|
                    0 <= j < i ==> #[trigger] configs@[j]@ == membership.configs@[j].node_ids@.dom(),
            decreases membership.configs.len() - i,
        {
            let config = key_set(&membership.configs[i].node_ids);
            configs.push(config);
            i += 1;
        }
        let m = Membership { configs, nodes: membership.nodes };
        assert(m@.0 =~= pb_membership_view(membership).0);
        m
    }
}

impl PbMembership {
    /// The wire form of a membership: each voter set becomes a map from its
    /// node ids to `()`; the node map is kept as it is.
    pub fn from_membership(membership: Membership) -> (pb: PbMembership)
        ensures
            pb_membership_view(pb) == membership@,
            pb.nodes@ == membership.nodes@,
            pb.configs@.len() == membership.configs@.len(),
    {
        let mut configs: Vec<NodeIdSet> = Vec::new();
        let mut i: usize = 0;
        while i < membership.configs.len()
            invariant
                i <= membership.configs.len(),
                configs@.len() == i,
                forall|j: int|
                    0 <= j < i ==> #[trigger] configs@[j].node_ids@.dom() == membership.configs@[j]@,
            decreases membership.configs.len() - i,
        {
            let node_ids = unit_map(&membership.configs[i]);
            configs.push(NodeIdSet { node_ids });
            i += 1;
        }
        let pb = PbMembership { configs, nodes: membership.nodes };
        assert(pb_membership_view(pb).0 =~= membership@.0);
        pb
    }
}

/// Converting a wire membership to the Raft form and back gives it back: the
/// same voter configurations, in order, and the same node map.
pub proof fn lemma_membership_roundtrip_from_wire(pb: PbMembership, m: Membership, back: PbMembership)
    requires
        m@ == pb_membership_view(pb),
        m.nodes@ == pb.nodes@,
        pb_membership_view(back) == m@,
        back.nodes@ == m.nodes@,
        back.configs@.len() == m.configs@.len(),
        m.configs@.len() == pb.configs@.len(),
    ensures
        back.configs@.len() == pb.configs@.len(),
        forall|j: int|
            0 <= j < pb.configs@.len() ==> #[trigger] back.configs@[j].node_ids@
                == pb.configs@[j].node_ids@,
        back.nodes@ == pb.nodes@,
{
    assert forall|j: int| 0 <= j < pb.configs@.len() implies #[trigger] back.configs@[j].node_ids@
        == pb.configs@[j].node_ids@ by {
        assert(pb_membership_view(back).0[j] == pb_membership_view(pb).0[j]);
        assert(back.configs@[j].node_ids@ =~= pb.configs@[j].node_ids@);
    }
}

} // verus!
