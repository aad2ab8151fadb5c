//! The wire form of the outcome of a membership change.
use crate::pb::controller::ClientWriteResponse as PbClientWriteResponse;
use crate::pb::common::Membership as PbMembership;
use crate::pb_impl::log_id::wire_log_id;
use crate::pb_impl::membership::pb_membership_view;
use crate::types::ClientWriteResponse;
use vstd::prelude::*;

verus! {

impl PbClientWriteResponse {
    /// The wire form of a write's outcome: its log id and the membership it
    /// installed, if any; the application's answer is not sent.
    pub fn from_response<R>(resp: ClientWriteResponse<R>) -> (r: PbClientWriteResponse)
        ensures
            r.log_id == Some(wire_log_id(resp.log_id)),
            match resp.membership {
                Some(m) => r.membership matches Some(pm) && pb_membership_view(pm) == m@
                    && pm.nodes@ == m.nodes@,
                None => r.membership is None,
            },
    {
        let membership = match resp.membership {
            Some(m) => Some(PbMembership::from_membership(m)),
            None => None,
        };
        PbClientWriteResponse { log_id: Some(resp.log_id.into()), membership }
    }
}

} // verus!
