//! Conversions of the append-entries request between the wire and the Raft form.
use crate::pb::internal::AppendEntriesRequest as PbAppendEntriesRequest;
use crate::pb_impl::log_id::log_id_of;
use crate::pb_impl::log_id::pb_log_id_of;
use crate::pb_impl::log_id::opt_raft_log_id;
use crate::pb_impl::log_id::opt_wire_log_id;
use crate::types::AppendEntriesRequest;
use vstd::prelude::*;

verus! {

impl PbAppendEntriesRequest {
    /// The wire form of a Raft append-entries request.
    pub fn from_request(req: AppendEntriesRequest) -> (r: PbAppendEntriesRequest)
        ensures
            r.vote == Some(req.vote),
            r.prev_log_id == opt_wire_log_id(req.prev_log_id),
            r.entries == req.entries,
            r.leader_commit == opt_wire_log_id(req.leader_commit),
    {
        PbAppendEntriesRequest {
            vote: Some(req.vote),
            prev_log_id: pb_log_id_of(req.prev_log_id),
            entries: req.entries,
            leader_commit: pb_log_id_of(req.leader_commit),
        }
    }
}

impl AppendEntriesRequest {
    /// The Raft form of a wire append-entries request, which must carry a vote.
    pub fn from_pb(req: PbAppendEntriesRequest) -> (r: AppendEntriesRequest)
        requires
            req.vote is Some,
        ensures
            Some(r.vote) == req.vote,
            r.prev_log_id == opt_raft_log_id(req.prev_log_id),
            r.entries == req.entries,
            r.leader_commit == opt_raft_log_id(req.leader_commit),
    {
        AppendEntriesRequest {
            vote: req.vote.unwrap(),
            prev_log_id: log_id_of(req.prev_log_id),
            entries: req.entries,
            leader_commit: log_id_of(req.leader_commit),
        }
    }
}

} // verus!
