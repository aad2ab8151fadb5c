//! The log entry as Raft uses it, and its text form.
use crate::pb::common::Membership as PbMembership;
use crate::pb::common::NodeIdSet;
use crate::pb::internal::Entry;
use crate::pb_impl::membership::pb_membership_view;
use crate::text::decimal;
use crate::text::push_decimal;
use crate::types::EntryPayload;
use crate::types::LogId;
use crate::types::Membership;
use std::collections::BTreeMap;
use vstd::prelude::*;
use vstd::string::StringExecFns;

verus! {

/// The text of an entry: `Entry{term=<term>,index=<index>}`.
pub open spec fn entry_text(e: Entry) -> Seq<char> {
    seq!['E', 'n', 't', 'r', 'y', '{', 't', 'e', 'r', 'm', '='] + decimal(e.term as nat) + seq![
        ',',
        'i',
        'n',
        'd',
        'e',
        'x',
        '=',
    ] + decimal(e.index as nat) + seq!['}']
}

/// The log id of an entry: its term as committed leader id, and its index.
pub open spec fn entry_log_id(e: Entry) -> LogId {
    LogId { leader_id: e.term, index: e.index }
}

impl PbMembership {
    /// A copy of this wire membership.
    pub fn copy(&self) -> (r: PbMembership)
        ensures
            pb_membership_view(r) == pb_membership_view(*self),
            r.nodes@ == self.nodes@,
            r.configs@.len() == self.configs@.len(),
            forall|j: int|
                0 <= j < self.configs@.len() ==> #[trigger] r.configs@[j].node_ids@
                    == self.configs@[j].node_ids@,
    {
        let mut configs: Vec<NodeIdSet> = Vec::new();
        let mut i: usize = 0;
        while i < self.configs.len()
            invariant
                i <= self.configs.len(),
                configs@.len() == i,
                forall|j: int|
                    0 <= j < i ==> #[trigger] configs@[j].node_ids@ == self.configs@[j].node_ids@,
            decreases self.configs.len() - i,
        {
            let node_ids: BTreeMap<u64, ()> = self.configs[i].node_ids.clone();
            configs.push(NodeIdSet { node_ids });
            i += 1;
        }
        let r = PbMembership { configs, nodes: self.nodes.clone() };
        assert(pb_membership_view(r).0 =~= pb_membership_view(*self).0);
        r
    }
}

impl Entry {
    /// The entry at `log_id` carrying `payload`: an application request
    /// (already serialized) as `app_data`, a membership in its wire form.
    pub fn new(log_id: LogId, payload: EntryPayload) -> (e: Entry)
        ensures
            e.term == log_id.leader_id,
            e.index == log_id.index,
            match payload {
                EntryPayload::Blank => e.app_data is None && e.membership is None,
                EntryPayload::Normal(data) => e.app_data == Some(data) && e.membership is None,
                EntryPayload::Membership(m) => e.app_data is None && (e.membership matches Some(
                    pm,
                ) && pb_membership_view(pm) == m@ && pm.nodes@ == m.nodes@),
            },
    {
        let mut app_data = None;
        let mut membership = None;
        match payload {
            EntryPayload::Blank => {},
            EntryPayload::Normal(data) => app_data = Some(data),
            EntryPayload::Membership(m) => membership = Some(PbMembership::from_membership(m)),
        }
        Entry { term: log_id.leader_id, index: log_id.index, app_data, membership }
    }

    /// The membership that this entry carries, in the Raft form.
    pub fn get_membership(&self) -> (m: Option<Membership>)
        ensures
            match self.membership {
                Some(pm) => m matches Some(x) && x@ == pb_membership_view(pm) && x.nodes@
                    == pm.nodes@,
                None => m is None,
            },
    {
        match &self.membership {
            Some(pm) => Some(Membership::from_pb(pm.copy())),
            None => None,
        }
    }

    /// The term and the index of this entry.
    pub fn log_id_parts(&self) -> (r: (&u64, u64))
        ensures
            *r.0 == self.term,
            r.1 == self.index,
    {
        (&self.term, self.index)
    }

    /// Moves this entry to `new`, keeping its payload.
    pub fn set_log_id(&mut self, new: LogId)
        ensures
            final(self).term == new.leader_id,
            final(self).index == new.index,
            final(self).app_data == old(self).app_data,
            final(self).membership == old(self).membership,
    {
        self.term = new.leader_id;
        self.index = new.index;
    }

    /// The log id of this entry.
    pub fn log_id(&self) -> (l: LogId)
        ensures
            l == entry_log_id(*self),
    {
        LogId { leader_id: self.term, index: self.index }
    }

    /// The log index of this entry.
    pub fn index(&self) -> (i: u64)
        ensures
            i == self.index,
    {
        self.index
    }

    /// The text of this entry, `Entry{term=<term>,index=<index>}`.
    pub fn to_display_string(&self) -> (s: String)
        ensures
            s@ == entry_text(*self),
    {
        proof {
            reveal_strlit("Entry{term=");
            reveal_strlit(",index=");
            reveal_strlit("}");
        }
        let mut s = String::new();
        s.append("Entry{term=");
        push_decimal(&mut s, self.term);
        s.append(",index=");
        push_decimal(&mut s, self.index);
        s.append("}");
        assert(s@ =~= entry_text(*self));
        s
    }
}

} // verus!
