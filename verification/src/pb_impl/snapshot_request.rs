//! Reading the payload of a snapshot transfer message.
use crate::pb::internal::snapshot_request::Payload;
use crate::pb::internal::SnapshotRequest;
use crate::pb::internal::SnapshotRequestMeta;
use vstd::prelude::*;

verus! {

impl SnapshotRequest {
    /// The snapshot metadata that this message carries, if it carries metadata.
    pub fn into_meta(self) -> (r: Option<SnapshotRequestMeta>)
        ensures
            r == match self.payload {
                Some(Payload::Meta(meta)) => Some(meta),
                _ => None::<SnapshotRequestMeta>,
            },
    {
        let p = self.payload?;
        match p {
            Payload::Meta(meta) => Some(meta),
            Payload::Chunk(_) => None,
        }
    }

    /// The chunk of snapshot data that this message carries, if it carries data.
    pub fn into_data_chunk(self) -> (r: Option<Vec<u8>>)
        ensures
            r == match self.payload {
                Some(Payload::Chunk(chunk)) => Some(chunk),
                _ => None::<Vec<u8>>,
            },
    {
        let p = self.payload?;
        match p {
            Payload::Meta(_) => None,
            Payload::Chunk(chunk) => Some(chunk),
        }
    }
}

} // verus!
