//! The vote as Raft uses it, and its text form.
use crate::pb::internal::LeaderId;
use crate::pb::internal::Vote;
use crate::text::decimal;
use crate::text::push_decimal;
use vstd::prelude::*;
use vstd::string::StringExecFns;

verus! {

/// The text of a leader id: `T<term>-N<node>`.
pub open spec fn leader_id_text(l: LeaderId) -> Seq<char> {
    seq!['T'] + decimal(l.term as nat) + seq!['-', 'N'] + decimal(l.node_id as nat)
}

/// The text of a vote: `<leader:Q>` once committed, `<leader:->` before; a
/// vote without a leader shows the default leader id `T0-N0`.
pub open spec fn vote_text(v: Vote) -> Seq<char> {
    let leader = match v.leader_id {
        Some(l) => l,
        None => LeaderId { term: 0, node_id: 0 },
    };
    seq!['<'] + leader_id_text(leader) + seq![':'] + (if v.committed {
        seq!['Q']
    } else {
        seq!['-']
    }) + seq!['>']
}

/// Appends the text of the leader id `l` to `s`.
fn push_leader_id(s: &mut String, l: &LeaderId)
    ensures
        final(s)@ == old(s)@ + leader_id_text(*l),
{
    proof {
        reveal_strlit("T");
        reveal_strlit("-N");
    }
    s.append("T");
    push_decimal(s, l.term);
    s.append("-N");
    push_decimal(s, l.node_id);
    assert(s@ =~= old(s)@ + leader_id_text(*l));
}

impl LeaderId {
    /// The text of this leader id, `T<term>-N<node>`.
    pub fn to_display_string(&self) -> (s: String)
        ensures
            s@ == leader_id_text(*self),
    {
        let mut s = String::new();
        push_leader_id(&mut s, self);
        assert(s@ =~= leader_id_text(*self));
        s
    }
}

impl Vote {
    /// The vote for `leader_id`, committed or not.
    pub fn from_leader_id(leader_id: LeaderId, committed: bool) -> (v: Vote)
        ensures
            v.leader_id == Some(leader_id),
            v.committed == committed,
    {
        Vote { leader_id: Some(leader_id), committed }
    }

    /// The leader that this vote is for.
    pub fn leader_id(&self) -> (l: &LeaderId)
        requires
            self.leader_id is Some,
        ensures
            Some(*l) == self.leader_id,
    {
        self.leader_id.as_ref().unwrap()
    }

    /// Whether a quorum granted this vote.
    pub fn is_committed(&self) -> (b: bool)
        ensures
            b == self.committed,
    {
        self.committed
    }

    /// The text of this vote, `<leader:Q>` or `<leader:->`.
    pub fn to_display_string(&self) -> (s: String)
        ensures
            s@ == vote_text(*self),
    {
        proof {
            reveal_strlit("<");
            reveal_strlit(":");
            reveal_strlit("Q");
            reveal_strlit("-");
            reveal_strlit(">");
        }
        let mut s = String::new();
        s.append("<");
        let default_leader = LeaderId { term: 0, node_id: 0 };
        let leader = match &self.leader_id {
            Some(l) => l,
            None => &default_leader,
        };
        push_leader_id(&mut s, leader);
        s.append(":");
        if self.committed {
            s.append("Q");
        } else {
            s.append("-");
        }
        s.append(">");
        assert(s@ =~= vote_text(*self));
        s
    }
}

} // verus!
