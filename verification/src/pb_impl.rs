//! Conversions between the wire messages and the Raft types, and the
//! Raft-facing behaviour of the wire types.
pub mod snapshot_request;
pub mod membership;
pub mod leader_id;
pub mod log_id;
pub mod vote;
pub mod entry;
pub mod append_entries_request;
pub mod client_write_response;
pub mod vote_response;
