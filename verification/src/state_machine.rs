//! The state machine's bookkeeping: the last applied log id, the last
//! membership, snapshot ids and snapshot installation.
//!
//! The application state itself, and the (de)serialization of requests and
//! snapshots, belong to the application; this module decides what each log
//! entry and each snapshot does to the bookkeeping, and what the application
//! must be handed.
use crate::pb::internal::Entry;
use crate::pb_impl::entry::entry_log_id;
use crate::pb_impl::membership::pb_membership_view;
use crate::text::decimal;
use crate::text::push_decimal;
use crate::types::LogId;
use crate::types::Membership;
use crate::types::MembershipView;
use crate::types::Snapshot;
use crate::types::SnapshotMeta;
use crate::types::StoredMembership;
use vstd::prelude::*;
use vstd::string::StringExecFns;

verus! {

/// What the state machine has applied: the last log id and the last membership.
pub struct StateMachineData {
    pub last_applied_log: Option<LogId>,
    pub last_membership: StoredMembership,
}

/// A snapshot as the store keeps it: its metadata and its serialized data.
#[derive(Clone, Debug)]
pub struct StoredSnapshot {
    pub meta: SnapshotMeta,
    pub data: Vec<u8>,
}

/// The state machine store: what it has applied, and how many snapshot
/// builders it has handed out.
pub struct StateMachineStore {
    pub state_machine: StateMachineData,
    pub snapshot_idx: u64,
}

/// What applying an entry asks of the application.
#[derive(Debug)]
pub enum ApplyAction {
    /// Apply this serialized request to the application and answer with its response.
    Request(Vec<u8>),
    /// Nothing: a blank entry or a membership change.
    Nothing,
}

/// The bookkeeping of a state machine: last applied log id, and the last
/// membership with the id of the entry that brought it.
pub type Applied = (Option<LogId>, (Option<LogId>, MembershipView));

/// The bookkeeping after applying one entry: it becomes the last applied;
/// an entry without application data that carries a membership installs it.
pub open spec fn apply_step(st: Applied, e: Entry) -> Applied {
    let log_id = entry_log_id(e);
    if e.app_data is None && e.membership is Some {
        (Some(log_id), (Some(log_id), pb_membership_view(e.membership->0)))
    } else {
        (Some(log_id), st.1)
    }
}

/// The bookkeeping after applying `entries` in order.
pub open spec fn apply_all(st: Applied, entries: Seq<Entry>) -> Applied
    decreases entries.len(),
{
    if entries.len() == 0 {
        st
    } else {
        apply_all(apply_step(st, entries[0]), entries.drop_first())
    }
}

/// The id of a snapshot: `<leader>-<index>-<n>` after the log id
/// `<leader>-<index>`, `--<n>` when nothing was applied, where `n` counts
/// the snapshot builders handed out.
pub open spec fn snapshot_id_text(last: Option<LogId>, idx: u64) -> Seq<char> {
    match last {
        Some(l) => decimal(l.leader_id as nat) + seq!['-'] + decimal(l.index as nat) + seq!['-']
            + decimal(idx as nat),
        None => seq!['-', '-'] + decimal(idx as nat),
    }
}

/// Applying entries one more at a time: applying `entries` and then `e`
/// is applying `entries` followed by `e`.
pub proof fn lemma_apply_all_push(st: Applied, entries: Seq<Entry>, e: Entry)
    ensures
        apply_all(st, entries.push(e)) == apply_step(apply_all(st, entries), e),
    decreases entries.len(),
{
    if entries.len() == 0 {
        assert(entries.push(e).drop_first() =~= Seq::<Entry>::empty());
        assert(entries.push(e)[0] == e);
        assert(apply_all(apply_step(st, e), Seq::<Entry>::empty()) == apply_step(st, e));
        assert(apply_all(st, entries) == st);
    } else {
        assert(entries.push(e).drop_first() =~= entries.drop_first().push(e));
        assert(entries.push(e)[0] == entries[0]);
        lemma_apply_all_push(apply_step(st, entries[0]), entries.drop_first(), e);
    }
}

/// Whether an entry installs a membership when applied.
pub open spec fn is_membership_entry(e: Entry) -> bool {
    e.app_data is None && e.membership is Some
}

/// After applying a non-empty sequence of entries, the last applied log id
/// is that of the last entry; the last membership is the one of the last
/// entry that installs a membership, or the one before when none does.
pub proof fn lemma_apply_all_result(st: Applied, entries: Seq<Entry>, k: int)
    requires
        0 <= k < entries.len(),
        is_membership_entry(entries[k]),
        forall|j: int| k < j < entries.len() ==> !is_membership_entry(#[trigger] entries[j]),
    ensures
        apply_all(st, entries).0 == Some(entry_log_id(entries.last())),
        apply_all(st, entries).1 == (
            Some(entry_log_id(entries[k])),
            pb_membership_view(entries[k].membership->0),
        ),
    decreases entries.len(),
{
    let n = entries.len();
    let init = entries.drop_last();
    assert(entries =~= init.push(entries.last()));
    lemma_apply_all_push(st, init, entries.last());
    if k < n - 1 {
        assert(init[k] == entries[k]);
        assert forall|j: int| k < j < init.len() implies !is_membership_entry(#[trigger] init[j]) by {
            assert(init[j] == entries[j]);
        }
        lemma_apply_all_result(st, init, k);
    }
}

/// Applying entries none of which installs a membership keeps the last
/// membership, and makes the last entry the last applied.
pub proof fn lemma_apply_all_keeps_membership(st: Applied, entries: Seq<Entry>)
    requires
        forall|j: int| 0 <= j < entries.len() ==> !is_membership_entry(#[trigger] entries[j]),
    ensures
        apply_all(st, entries).1 == st.1,
        entries.len() > 0 ==> apply_all(st, entries).0 == Some(entry_log_id(entries.last())),
        entries.len() == 0 ==> apply_all(st, entries).0 == st.0,
    decreases entries.len(),
{
    if entries.len() > 0 {
        let init = entries.drop_last();
        assert(entries =~= init.push(entries.last()));
        lemma_apply_all_push(st, init, entries.last());
        assert forall|j: int| 0 <= j < init.len() implies !is_membership_entry(#[trigger] init[j]) by {
            assert(init[j] == entries[j]);
        }
        lemma_apply_all_keeps_membership(st, init);
    }
}

/// Snapshots built by builders with distinct counts, from the same applied
/// state, have distinct ids.
pub proof fn lemma_snapshot_ids_distinct(last: Option<LogId>, i: u64, j: u64)
    ensures
        i != j ==> snapshot_id_text(last, i) != snapshot_id_text(last, j),
{
    if i != j && snapshot_id_text(last, i) == snapshot_id_text(last, j) {
        let prefix = match last {
            Some(l) => decimal(l.leader_id as nat) + seq!['-'] + decimal(l.index as nat) + seq![
                '-',
            ],
            None => seq!['-', '-'],
        };
        assert(snapshot_id_text(last, i) == prefix + decimal(i as nat));
        assert(snapshot_id_text(last, j) == prefix + decimal(j as nat));
        assert((prefix + decimal(i as nat)).subrange(prefix.len() as int, (prefix + decimal(i as nat)).len() as int) =~= decimal(i as nat));
        assert((prefix + decimal(j as nat)).subrange(prefix.len() as int, (prefix + decimal(j as nat)).len() as int) =~= decimal(j as nat));
        crate::text::lemma_decimal_injective(i as nat, j as nat);
    }
}

/// The bookkeeping that a snapshot's metadata records: its last log id and
/// its membership.
pub open spec fn meta_applied(meta: SnapshotMeta) -> Applied {
    (meta.last_log_id, meta.last_membership@)
}

impl StateMachineStore {
    /// The bookkeeping of this store.
    pub open spec fn applied(&self) -> Applied {
        (self.state_machine.last_applied_log, self.state_machine.last_membership@)
    }

    /// A store that has applied nothing and handed out no snapshot builder.
    pub fn new() -> (s: StateMachineStore)
        ensures
            s.state_machine.last_applied_log is None,
            s.state_machine.last_membership.log_id is None,
            s.state_machine.last_membership.membership@.0 == Seq::<Set<u64>>::empty(),
            s.state_machine.last_membership.membership@.1 == Map::<
                u64,
                (u64, Seq<char>),
            >::empty(),
            s.snapshot_idx == 0,
    {
        StateMachineStore {
            state_machine: StateMachineData {
                last_applied_log: None,
                last_membership: StoredMembership::initial(),
            },
            snapshot_idx: 0,
        }
    }

    /// Takes over the bookkeeping of a snapshot: its last log id and its
    /// membership. The application's state is restored from the snapshot's data.
    pub fn update_state_machine_(&mut self, snapshot: &StoredSnapshot)
        ensures
            final(self).state_machine.last_applied_log == snapshot.meta.last_log_id,
            final(self).state_machine.last_membership@ == snapshot.meta.last_membership@,
            final(self).snapshot_idx == old(self).snapshot_idx,
    {
        self.state_machine.last_applied_log = snapshot.meta.last_log_id;
        self.state_machine.last_membership = snapshot.meta.last_membership.copy();
    }

    /// The last applied log id and the last membership.
    pub fn applied_state(&self) -> (r: (Option<LogId>, StoredMembership))
        ensures
            r.0 == self.state_machine.last_applied_log,
            r.1@ == self.state_machine.last_membership@,
    {
        (self.state_machine.last_applied_log, self.state_machine.last_membership.copy())
    }

    /// Applies one log entry to the bookkeeping: the entry becomes the last
    /// applied; its application data is handed back to be applied by the
    /// application; otherwise its membership, if any, becomes the last membership.
    pub fn apply_entry(&mut self, entry: Entry) -> (action: ApplyAction)
        ensures
            final(self).applied() == apply_step(old(self).applied(), entry),
            final(self).snapshot_idx == old(self).snapshot_idx,
            match entry.app_data {
                Some(data) => action == ApplyAction::Request(data),
                None => action == ApplyAction::Nothing,
            },
    {
        let log_id = entry.log_id();
        self.state_machine.last_applied_log = Some(log_id);
        if let Some(req) = entry.app_data {
            ApplyAction::Request(req)
        } else if let Some(membership) = entry.membership {
            self.state_machine.last_membership =
                StoredMembership { log_id: Some(log_id), membership: Membership::from_pb(membership) };
            ApplyAction::Nothing
        } else {
            ApplyAction::Nothing
        }
    }

    /// Hands out a snapshot builder: a copy of this store, after counting it.
    pub fn get_snapshot_builder(&mut self) -> (builder: StateMachineStore)
        requires
            old(self).snapshot_idx < u64::MAX,
        ensures
            final(self).snapshot_idx == old(self).snapshot_idx + 1,
            final(self).applied() == old(self).applied(),
            builder.snapshot_idx == final(self).snapshot_idx,
            builder.applied() == old(self).applied(),
    {
        self.snapshot_idx = self.snapshot_idx + 1;
        StateMachineStore {
            state_machine: StateMachineData {
                last_applied_log: self.state_machine.last_applied_log,
                last_membership: self.state_machine.last_membership.copy(),
            },
            snapshot_idx: self.snapshot_idx,
        }
    }

    /// The id of the next snapshot built from this store.
    pub fn snapshot_id(&self) -> (id: String)
        ensures
            id@ == snapshot_id_text(self.state_machine.last_applied_log, self.snapshot_idx),
    {
        let mut id = String::new();
        match self.state_machine.last_applied_log {
            Some(last) => {
                proof {
                    reveal_strlit("-");
                }
                push_decimal(&mut id, last.leader_id);
                id.append("-");
                push_decimal(&mut id, last.index);
                id.append("-");
                push_decimal(&mut id, self.snapshot_idx);
            },
            None => {
                proof {
                    reveal_strlit("--");
                }
                id.append("--");
                push_decimal(&mut id, self.snapshot_idx);
            },
        }
        assert(id@ =~= snapshot_id_text(self.state_machine.last_applied_log, self.snapshot_idx));
        id
    }

    /// The snapshot of the serialized application state `data`: its metadata
    /// is the last applied log id, the last membership and the snapshot id.
    pub fn build_snapshot(&self, data: Vec<u8>) -> (snapshot: Snapshot)
        ensures
            snapshot.meta.last_log_id == self.state_machine.last_applied_log,
            snapshot.meta.last_membership@ == self.state_machine.last_membership@,
            meta_applied(snapshot.meta) == self.applied(),
            snapshot.meta.snapshot_id@ == snapshot_id_text(
                self.state_machine.last_applied_log,
                self.snapshot_idx,
            ),
            snapshot.snapshot@ == data@,
    {
        let meta = SnapshotMeta {
            last_log_id: self.state_machine.last_applied_log,
            last_membership: self.state_machine.last_membership.copy(),
            snapshot_id: self.snapshot_id(),
        };
        Snapshot { meta, snapshot: data }
    }

    /// The data buffer into which a snapshot is received: empty.
    pub fn begin_receiving_snapshot(&self) -> (data: Vec<u8>)
        ensures
            data@ == Seq::<u8>::empty(),
    {
        Vec::new()
    }

    /// Installs a received snapshot: the store takes over its bookkeeping,
    /// and the snapshot to restore the application from and to keep is handed back.
    pub fn install_snapshot(&mut self, meta: SnapshotMeta, snapshot: Vec<u8>) -> (stored:
        StoredSnapshot)
        ensures
            final(self).state_machine.last_applied_log == meta.last_log_id,
            final(self).state_machine.last_membership@ == meta.last_membership@,
            final(self).applied() == meta_applied(meta),
            final(self).snapshot_idx == old(self).snapshot_idx,
            stored.meta == meta,
            stored.data == snapshot,
    {
        let new_snapshot = StoredSnapshot { meta, data: snapshot };
        self.update_state_machine_(&new_snapshot);
        new_snapshot
    }
}

/// The snapshot that a kept snapshot stands for.
pub fn current_snapshot(stored: Option<StoredSnapshot>) -> (r: Option<Snapshot>)
    ensures
        match stored {
            Some(s) => r matches Some(x) && x.meta == s.meta && x.snapshot == s.data,
            None => r is None,
        },
{
    match stored {
        Some(s) => Some(Snapshot { meta: s.meta, snapshot: s.data }),
        None => None,
    }
}

/// The snapshot to keep for a built snapshot.
pub fn stored_snapshot_of(snapshot: &Snapshot) -> (stored: StoredSnapshot)
    ensures
        stored.meta@ == snapshot.meta@,
        stored.data@ == snapshot.snapshot@,
{
    let meta = SnapshotMeta {
        last_log_id: snapshot.meta.last_log_id,
        last_membership: snapshot.meta.last_membership.copy(),
        snapshot_id: snapshot.meta.snapshot_id.clone(),
    };
    let data = vstd::slice::slice_to_vec(snapshot.snapshot.as_slice());
    StoredSnapshot { meta, data }
}

} // verus!
