//! The payload of a snapshot transfer message.
use crate::pb::internal::SnapshotRequestMeta;
use vstd::prelude::*;

verus! {

/// A snapshot transfer message carries either the snapshot's metadata or a chunk of its data.
#[derive(Clone, Debug)]
pub enum Payload {
    Meta(SnapshotRequestMeta),
    Chunk(Vec<u8>),
}

} // verus!
