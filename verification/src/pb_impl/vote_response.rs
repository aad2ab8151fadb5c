//! Conversions of the vote response between the wire and the Raft form.
use crate::pb::internal::VoteResponse as PbVoteResponse;
use crate::pb_impl::log_id::log_id_of;
use crate::pb_impl::log_id::pb_log_id_of;
use crate::pb_impl::log_id::opt_raft_log_id;
use crate::pb_impl::log_id::opt_wire_log_id;
use crate::types::VoteResponse;
use vstd::prelude::*;

verus! {

impl VoteResponse {
    /// The Raft form of a wire vote response, which must carry a vote.
    pub fn from_pb(resp: PbVoteResponse) -> (r: VoteResponse)
        requires
            resp.vote is Some,
        ensures
            Some(r.vote) == resp.vote,
            r.vote_granted == resp.vote_granted,
            r.last_log_id == opt_raft_log_id(resp.last_log_id),
    {
        VoteResponse {
            vote: resp.vote.unwrap(),
            last_log_id: log_id_of(resp.last_log_id),
            vote_granted: resp.vote_granted,
        }
    }
}

impl PbVoteResponse {
    /// The wire form of a Raft vote response.
    pub fn from_response(resp: VoteResponse) -> (r: PbVoteResponse)
        ensures
            r.vote == Some(resp.vote),
            r.vote_granted == resp.vote_granted,
            r.last_log_id == opt_wire_log_id(resp.last_log_id),
    {
        PbVoteResponse {
            vote: Some(resp.vote),
            vote_granted: resp.vote_granted,
            last_log_id: pb_log_id_of(resp.last_log_id),
        }
    }
}

} // verus!
