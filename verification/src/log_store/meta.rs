//! The metadata that the log store keeps beside the log, each under its own key.
use crate::types::LogId;
use vstd::prelude::*;

verus! {

/// A kind of metadata: the key it is stored under and the type of its value.
pub trait StoreMeta {
    /// The key in the metadata column family.
    const KEY: &'static str;

    type Value;
}

/// The id of the last purged log entry.
pub struct LastPurged {}

/// The node's current vote.
pub struct Vote {}

impl StoreMeta for LastPurged {
    const KEY: &'static str = "last_purged_log_id";

    type Value = LogId;
}

impl StoreMeta for Vote {
    const KEY: &'static str = "vote";

    type Value = crate::pb::internal::Vote;
}

} // verus!
