//! Conversions between the wire form of a log id and the Raft form.
use crate::pb::common::LogId as PbLogId;
use crate::types::LogId;
use vstd::prelude::*;
use vstd::std_specs::convert::FromSpecImpl;

verus! {

/// The wire form of a log id: the committed leader id travels as the term.
pub open spec fn wire_log_id(log_id: LogId) -> PbLogId {
    PbLogId { term: log_id.leader_id, index: log_id.index }
}

/// The Raft form of a wire log id: the term is the committed leader id.
pub open spec fn raft_log_id(log_id: PbLogId) -> LogId {
    LogId { leader_id: log_id.term, index: log_id.index }
}

/// The wire form of an optional log id.
pub open spec fn opt_wire_log_id(log_id: Option<LogId>) -> Option<PbLogId> {
    match log_id {
        Some(l) => Some(wire_log_id(l)),
        None => None,
    }
}

/// The Raft form of an optional wire log id.
pub open spec fn opt_raft_log_id(log_id: Option<PbLogId>) -> Option<LogId> {
    match log_id {
        Some(l) => Some(raft_log_id(l)),
        None => None,
    }
}

/// The wire form carries the committed leader id as the term.
impl From<LogId> for PbLogId {
    fn from(log_id: LogId) -> (r: PbLogId) {
        PbLogId { term: log_id.leader_id, index: log_id.index }
    }
}

impl FromSpecImpl<LogId> for PbLogId {
    open spec fn obeys_from_spec() -> bool {
        true
    }

    open spec fn from_spec(log_id: LogId) -> PbLogId {
        wire_log_id(log_id)
    }
}

/// The Raft form takes the term as the committed leader id.
impl From<PbLogId> for LogId {
    fn from(log_id: PbLogId) -> (r: LogId) {
        LogId { leader_id: log_id.term, index: log_id.index }
    }
}

impl FromSpecImpl<PbLogId> for LogId {
    open spec fn obeys_from_spec() -> bool {
        true
    }

    open spec fn from_spec(log_id: PbLogId) -> LogId {
        raft_log_id(log_id)
    }
}

/// The wire form of an optional log id.
pub fn pb_log_id_of(log_id: Option<LogId>) -> (r: Option<PbLogId>)
    ensures
        r == opt_wire_log_id(log_id),
{
    match log_id {
        Some(l) => Some(PbLogId::from(l)),
        None => None,
    }
}

/// The Raft form of an optional wire log id.
pub fn log_id_of(log_id: Option<PbLogId>) -> (r: Option<LogId>)
    ensures
        r == opt_raft_log_id(log_id),
{
    match log_id {
        Some(l) => Some(LogId::from(l)),
        None => None,
    }
}

/// Converting a log id to the wire form and back gives it back, and so does
/// the other way round.
pub proof fn lemma_log_id_roundtrip(log_id: LogId, pb: PbLogId)
    ensures
        raft_log_id(wire_log_id(log_id)) == log_id,
        wire_log_id(raft_log_id(pb)) == pb,
{
}

} // verus!
