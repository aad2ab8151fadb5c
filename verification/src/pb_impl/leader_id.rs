//! The order on leader ids, and the leader id as Raft uses it.
use crate::pb::internal::LeaderId;
use std::cmp::Ordering;
use vstd::prelude::*;
use vstd::std_specs::cmp::PartialEqSpecImpl;
use vstd::std_specs::cmp::PartialOrdSpecImpl;

verus! {

/// How two numbers compare.
pub open spec fn order_of_u64(a: u64, b: u64) -> Ordering {
    if a < b {
        Ordering::Less
    } else if a == b {
        Ordering::Equal
    } else {
        Ordering::Greater
    }
}

/// How two leader ids compare: by term; within one term, a leader id equals
/// itself and is incomparable with one of another node.
pub open spec fn leader_id_order(a: LeaderId, b: LeaderId) -> Option<Ordering> {
    if a.term < b.term {
        Some(Ordering::Less)
    } else if a.term > b.term {
        Some(Ordering::Greater)
    } else if a.node_id == b.node_id {
        Some(Ordering::Equal)
    } else {
        None
    }
}

/// Whether `a` is at most `b` in the order on leader ids.
pub open spec fn leader_id_le(a: LeaderId, b: LeaderId) -> bool {
    leader_id_order(a, b) == Some(Ordering::Less) || leader_id_order(a, b) == Some(Ordering::Equal)
}

impl PartialOrd for LeaderId {
    fn partial_cmp(&self, other: &Self) -> (r: Option<Ordering>) {
        if self.term < other.term {
            Some(Ordering::Less)
        } else if self.term > other.term {
            Some(Ordering::Greater)
        } else if self.node_id == other.node_id {
            Some(Ordering::Equal)
        } else {
            None
        }
    }
}

impl PartialOrdSpecImpl for LeaderId {
    open spec fn obeys_partial_cmp_spec() -> bool {
        true
    }

    open spec fn partial_cmp_spec(&self, other: &Self) -> Option<Ordering> {
        leader_id_order(*self, *other)
    }
}

/// A leader id is never equal to a bare term.
impl PartialEq<u64> for LeaderId {
    fn eq(&self, other: &u64) -> (r: bool) {
        false
    }
}

impl PartialEqSpecImpl<u64> for LeaderId {
    open spec fn obeys_eq_spec() -> bool {
        true
    }

    open spec fn eq_spec(&self, other: &u64) -> bool {
        false
    }
}

/// A leader id compares with a bare term by its own term.
impl PartialOrd<u64> for LeaderId {
    fn partial_cmp(&self, other: &u64) -> (r: Option<Ordering>) {
        if self.term < *other {
            Some(Ordering::Less)
        } else if self.term == *other {
            Some(Ordering::Equal)
        } else {
            Some(Ordering::Greater)
        }
    }
}

impl PartialOrdSpecImpl<u64> for LeaderId {
    open spec fn obeys_partial_cmp_spec() -> bool {
        true
    }

    open spec fn partial_cmp_spec(&self, other: &u64) -> Option<Ordering> {
        Some(order_of_u64(self.term, *other))
    }
}

impl LeaderId {
    /// The leader id of `node_id` in `term`.
    pub fn new(term: u64, node_id: u64) -> (r: LeaderId)
        ensures
            r.term == term,
            r.node_id == node_id,
    {
        LeaderId { term, node_id }
    }

    /// The term of this leader id.
    pub fn term(&self) -> (t: u64)
        ensures
            t == self.term,
    {
        self.term
    }

    /// The node of this leader id.
    pub fn node_id(&self) -> (n: &u64)
        ensures
            *n == self.node_id,
    {
        &self.node_id
    }

    /// The committed form of this leader id, which is its term.
    pub fn to_committed(&self) -> (t: u64)
        ensures
            t == self.term,
    {
        self.term
    }
}

/// The order on leader ids is a partial order: two leader ids compare
/// equal exactly when they are the same, comparing the other way round
/// gives the reverse answer, and `<` and `<=` are transitive.
pub proof fn lemma_leader_id_partial_order(a: LeaderId, b: LeaderId, c: LeaderId)
    ensures
        leader_id_order(a, b) == Some(Ordering::Equal) <==> a == b,
        leader_id_order(a, b) == Some(Ordering::Less) <==> leader_id_order(b, a) == Some(
            Ordering::Greater,
        ),
        leader_id_order(a, b) is None <==> leader_id_order(b, a) is None,
        leader_id_order(a, b) == Some(Ordering::Less) && leader_id_order(b, c) == Some(
            Ordering::Less,
        ) ==> leader_id_order(a, c) == Some(Ordering::Less),
        leader_id_le(a, b) && leader_id_le(b, c) ==> leader_id_le(a, c),
{
}

/// Leader ids of different terms are ordered by term; leader ids of one
/// term and different nodes are incomparable.
pub proof fn lemma_leader_id_order_by_term(a: LeaderId, b: LeaderId)
    ensures
        a.term != b.term ==> leader_id_order(a, b) == Some(order_of_u64(a.term, b.term)),
        a.term == b.term && a.node_id != b.node_id ==> leader_id_order(a, b) is None,
{
}

} // verus!
