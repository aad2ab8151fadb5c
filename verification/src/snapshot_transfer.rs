//! The snapshot transfer protocol between two nodes.
//!
//! The sender streams one metadata message and then the snapshot data cut
//! into chunks of at most `SNAPSHOT_CHUNK_SIZE` bytes; the receiver requires
//! the first message to be the metadata and every later one to be data, and
//! joins the chunks back together.
use crate::pb::internal::snapshot_request::Payload;
use crate::pb::internal::SnapshotRequest;
use crate::pb::common::Membership as PbMembership;
use crate::pb::internal::SnapshotRequestMeta;
use crate::pb::internal::SnapshotResponse;
use crate::pb::internal::Vote;
use crate::pb_impl::log_id::log_id_of;
use crate::pb_impl::log_id::opt_raft_log_id;
use crate::pb_impl::log_id::opt_wire_log_id;
use crate::pb_impl::log_id::pb_log_id_of;
use crate::pb_impl::membership::pb_membership_view;
use crate::types::Membership;
use crate::types::SnapshotMeta;
use crate::types::StoredMembership;
use vstd::prelude::*;

verus! {

/// The largest chunk of snapshot data that one message carries (1 MiB).
pub const SNAPSHOT_CHUNK_SIZE: usize = 1048576;

/// Why a received snapshot stream is refused.
#[derive(Clone, Copy, Debug, PartialEq, Eq, Structural)]
pub enum SnapshotStreamError {
    /// The stream ended before any message.
    Empty,
    /// The first message does not carry the metadata.
    FirstNotMeta,
    /// A message after the first does not carry data.
    ChunkNotData,
}

/// Why the answer to a snapshot transfer is refused.
#[derive(Clone, Copy, Debug, PartialEq, Eq, Structural)]
pub enum SnapshotResponseError {
    /// The answer carries no vote.
    MissingVote,
}

/// The metadata message that opens the transfer of a snapshot with `meta`,
/// sent on behalf of `vote`.
pub fn snapshot_request_meta(vote: Vote, meta: &SnapshotMeta) -> (r: SnapshotRequestMeta)
    ensures
        r.vote == Some(vote),
        r.last_log_id == opt_wire_log_id(meta.last_log_id),
        r.last_membership_log_id == opt_wire_log_id(meta.last_membership.log_id),
        r.last_membership matches Some(pm) && pb_membership_view(pm)
            == meta.last_membership.membership@ && pm.nodes@ == meta.last_membership.membership.nodes@,
        r.snapshot_id@ == meta.snapshot_id@,
{
    SnapshotRequestMeta {
        vote: Some(vote),
        last_log_id: pb_log_id_of(meta.last_log_id),
        last_membership_log_id: pb_log_id_of(meta.last_membership.log_id),
        last_membership: Some(PbMembership::from_membership(meta.last_membership.membership.copy())),
        snapshot_id: meta.snapshot_id.clone(),
    }
}

/// The sender's vote and the snapshot metadata that a received metadata
/// message carries; the message must carry a vote and a membership.
pub fn snapshot_meta_from_request(meta: SnapshotRequestMeta) -> (r: (Vote, SnapshotMeta))
    requires
        meta.vote is Some,
        meta.last_membership is Some,
    ensures
        Some(r.0) == meta.vote,
        r.1.last_log_id == opt_raft_log_id(meta.last_log_id),
        r.1.last_membership.log_id == opt_raft_log_id(meta.last_membership_log_id),
        r.1.last_membership.membership@ == pb_membership_view(meta.last_membership->0),
        r.1.last_membership.membership.nodes@ == meta.last_membership->0.nodes@,
        r.1.snapshot_id == meta.snapshot_id,
{
    let vote = meta.vote.unwrap();
    let snapshot_meta = SnapshotMeta {
        last_log_id: log_id_of(meta.last_log_id),
        last_membership: StoredMembership {
            log_id: log_id_of(meta.last_membership_log_id),
            membership: Membership::from_pb(meta.last_membership.unwrap()),
        },
        snapshot_id: meta.snapshot_id,
    };
    (vote, snapshot_meta)
}

/// The receiver's answer once the snapshot is installed: the vote that installed it.
pub fn snapshot_response(vote: Vote) -> (r: SnapshotResponse)
    ensures
        r.vote == Some(vote),
{
    SnapshotResponse { vote: Some(vote) }
}

/// The vote that the receiver answered with; an answer without a vote is refused.
pub fn snapshot_response_vote(resp: SnapshotResponse) -> (r: Result<Vote, SnapshotResponseError>)
    ensures
        match resp.vote {
            Some(v) => r == Ok::<Vote, SnapshotResponseError>(v),
            None => r == Err::<Vote, SnapshotResponseError>(SnapshotResponseError::MissingVote),
        },
{
    match resp.vote {
        Some(v) => Ok(v),
        None => Err(SnapshotResponseError::MissingVote),
    }
}

/// The metadata survives the transfer: what the receiver reads from the
/// sender's metadata message is the sender's vote and snapshot metadata.
pub proof fn lemma_snapshot_meta_roundtrip(
    vote: Vote,
    meta: SnapshotMeta,
    sent: SnapshotRequestMeta,
    got: (Vote, SnapshotMeta),
)
    requires
        sent.vote == Some(vote),
        sent.last_log_id == opt_wire_log_id(meta.last_log_id),
        sent.last_membership_log_id == opt_wire_log_id(meta.last_membership.log_id),
        sent.last_membership matches Some(pm) && pb_membership_view(pm)
            == meta.last_membership.membership@,
        sent.snapshot_id@ == meta.snapshot_id@,
        Some(got.0) == sent.vote,
        got.1.last_log_id == opt_raft_log_id(sent.last_log_id),
        got.1.last_membership.log_id == opt_raft_log_id(sent.last_membership_log_id),
        got.1.last_membership.membership@ == pb_membership_view(sent.last_membership->0),
        got.1.snapshot_id == sent.snapshot_id,
    ensures
        got.0 == vote,
        got.1@ == meta@,
{
    assert(opt_raft_log_id(opt_wire_log_id(meta.last_log_id)) == meta.last_log_id);
    assert(opt_raft_log_id(opt_wire_log_id(meta.last_membership.log_id))
        == meta.last_membership.log_id);
}

/// The bytes that a message contributes to the snapshot data.
pub open spec fn chunk_bytes(req: SnapshotRequest) -> Seq<u8> {
    match req.payload {
        Some(Payload::Chunk(c)) => c@,
        _ => Seq::empty(),
    }
}

/// Whether a message carries snapshot data.
pub open spec fn is_chunk(req: SnapshotRequest) -> bool {
    req.payload matches Some(Payload::Chunk(_))
}

/// The data carried by a sequence of data messages, joined in order.
pub open spec fn joined_chunks(reqs: Seq<SnapshotRequest>) -> Seq<u8>
    decreases reqs.len(),
{
    if reqs.len() == 0 {
        Seq::empty()
    } else {
        chunk_bytes(reqs[0]) + joined_chunks(reqs.drop_first())
    }
}

/// Whether `reqs` is a stream that transfers the snapshot `(meta, data)`:
/// the metadata first, then data messages whose chunks join to `data`.
pub open spec fn is_snapshot_stream(
    reqs: Seq<SnapshotRequest>,
    meta: SnapshotRequestMeta,
    data: Seq<u8>,
) -> bool {
    &&& reqs.len() >= 1
    &&& reqs[0].payload == Some(Payload::Meta(meta))
    &&& forall|k: int| 1 <= k < reqs.len() ==> is_chunk(#[trigger] reqs[k])
    &&& joined_chunks(reqs.drop_first()) == data
}

/// What a receiver holds: the metadata once received, and the data so far.
pub type ReceiverView = (Option<SnapshotRequestMeta>, Seq<u8>);

/// The receiver's state after one more message, or why the stream is refused.
pub open spec fn receive_step(st: ReceiverView, req: SnapshotRequest) -> Result<
    ReceiverView,
    SnapshotStreamError,
> {
    match st.0 {
        None => match req.payload {
            Some(Payload::Meta(meta)) => Ok((Some(meta), st.1)),
            _ => Err(SnapshotStreamError::FirstNotMeta),
        },
        Some(meta) => match req.payload {
            Some(Payload::Chunk(c)) => Ok((Some(meta), st.1 + c@)),
            _ => Err(SnapshotStreamError::ChunkNotData),
        },
    }
}

/// The receiver's state after a sequence of messages, or the first refusal.
pub open spec fn receive_all(st: ReceiverView, reqs: Seq<SnapshotRequest>) -> Result<
    ReceiverView,
    SnapshotStreamError,
>
    decreases reqs.len(),
{
    if reqs.len() == 0 {
        Ok(st)
    } else {
        match receive_step(st, reqs[0]) {
            Ok(next) => receive_all(next, reqs.drop_first()),
            Err(e) => Err(e),
        }
    }
}

/// The snapshot that a receiver holds when its stream ends.
pub open spec fn finish_spec(st: ReceiverView) -> Result<
    (SnapshotRequestMeta, Seq<u8>),
    SnapshotStreamError,
> {
    match st.0 {
        Some(meta) => Ok((meta, st.1)),
        None => Err(SnapshotStreamError::Empty),
    }
}

/// The receiving end of a snapshot transfer.
pub struct SnapshotReceiver {
    meta: Option<SnapshotRequestMeta>,
    data: Vec<u8>,
}

impl View for SnapshotReceiver {
    type V = ReceiverView;

    closed spec fn view(&self) -> ReceiverView {
        (self.meta, self.data@)
    }
}

impl SnapshotReceiver {
    /// A receiver that has received nothing.
    pub fn new() -> (r: SnapshotReceiver)
        ensures
            r@ == (None::<SnapshotRequestMeta>, Seq::<u8>::empty()),
    {
        SnapshotReceiver { meta: None, data: Vec::new() }
    }

    /// Takes the next message of the stream: the metadata when nothing came
    /// yet, data after it. On a refusal the receiver is left as it was.
    pub fn receive(&mut self, req: SnapshotRequest) -> (r: Result<(), SnapshotStreamError>)
        ensures
            match receive_step(old(self)@, req) {
                Ok(next) => r is Ok && final(self)@ == next,
                Err(e) => r == Err::<(), SnapshotStreamError>(e) && final(self)@ == old(self)@,
            },
    {
        if self.meta.is_none() {
            match req.into_meta() {
                Some(meta) => {
                    self.meta = Some(meta);
                    Ok(())
                },
                None => Err(SnapshotStreamError::FirstNotMeta),
            }
        } else {
            match req.into_data_chunk() {
                Some(chunk) => {
                    let ghost before = self.data@;
                    self.data.extend_from_slice(chunk.as_slice());
                    assert(self.data@ =~= before + chunk@);
                    Ok(())
                },
                None => Err(SnapshotStreamError::ChunkNotData),
            }
        }
    }

    /// The metadata and the joined data once the stream has ended; a stream
    /// that brought nothing is refused.
    pub fn finish(self) -> (r: Result<(SnapshotRequestMeta, Vec<u8>), SnapshotStreamError>)
        ensures
            match finish_spec(self@) {
                Ok((meta, data)) => r matches Ok((m, d)) && m == meta && d@ == data,
                Err(e) => r == Err::<(SnapshotRequestMeta, Vec<u8>), SnapshotStreamError>(e),
            },
    {
        match self.meta {
            Some(meta) => Ok((meta, self.data)),
            None => Err(SnapshotStreamError::Empty),
        }
    }
}

/// The messages that transfer a snapshot: the metadata, then the data in
/// chunks of `SNAPSHOT_CHUNK_SIZE` bytes, the last one possibly shorter.
/// Empty data gives no data message.
pub fn snapshot_requests(meta: SnapshotRequestMeta, data: &[u8]) -> (reqs: Vec<SnapshotRequest>)
    ensures
        is_snapshot_stream(reqs@, meta, data@),
        reqs@.len() == 1 + (data@.len() + SNAPSHOT_CHUNK_SIZE - 1) / (SNAPSHOT_CHUNK_SIZE as int),
        forall|k: int|
            1 <= k < reqs@.len() ==> 0 < #[trigger] chunk_bytes(reqs@[k]).len()
                <= SNAPSHOT_CHUNK_SIZE,
        forall|k: int|
            1 <= k < reqs@.len() - 1 ==> #[trigger] chunk_bytes(reqs@[k]).len()
                == SNAPSHOT_CHUNK_SIZE,
{
    let mut reqs: Vec<SnapshotRequest> = Vec::new();
    reqs.push(SnapshotRequest { payload: Some(Payload::Meta(meta)) });
    let len = data.len();
    let mut start: usize = 0;
    while start < len
        invariant
            len == data@.len(),
            start <= len,
            reqs@.len() >= 1,
            reqs@[0].payload == Some(Payload::Meta(meta)),
            start < len ==> start == (reqs@.len() - 1) * SNAPSHOT_CHUNK_SIZE,
            start == len ==> reqs@.len() - 1 == (len + SNAPSHOT_CHUNK_SIZE - 1) / (
            SNAPSHOT_CHUNK_SIZE as int),
            forall|k: int| 1 <= k < reqs@.len() ==> is_chunk(#[trigger] reqs@[k]),
            forall|k: int|
                1 <= k < reqs@.len() ==> 0 < #[trigger] chunk_bytes(reqs@[k]).len()
                    <= SNAPSHOT_CHUNK_SIZE,
            forall|k: int|
                1 <= k < reqs@.len() && (start < len || k < reqs@.len() - 1) ==> #[trigger] chunk_bytes(
                    reqs@[k],
                ).len() == SNAPSHOT_CHUNK_SIZE,
            joined_chunks(reqs@.drop_first()) == data@.subrange(0, start as int),
        decreases len - start,
    {
        let end = if len - start > SNAPSHOT_CHUNK_SIZE {
            start + SNAPSHOT_CHUNK_SIZE
        } else {
            len
        };
        let chunk = vstd::slice::slice_to_vec(vstd::slice::slice_subrange(data, start, end));
        let ghost before = reqs@;
        let req = SnapshotRequest { payload: Some(Payload::Chunk(chunk)) };
        reqs.push(req);
        proof {
            lemma_joined_chunks_push(before.drop_first(), req);
            assert(reqs@.drop_first() =~= before.drop_first().push(req));
            assert(data@.subrange(0, start as int) + data@.subrange(start as int, end as int)
                =~= data@.subrange(0, end as int));
            if end == len {
                assert((len + SNAPSHOT_CHUNK_SIZE - 1) / (SNAPSHOT_CHUNK_SIZE as int) == reqs@.len()
                    - 1) by (nonlinear_arith)
                    requires
                        start == (reqs@.len() - 2) * SNAPSHOT_CHUNK_SIZE,
                        len - start <= SNAPSHOT_CHUNK_SIZE,
                        start < len,
                        SNAPSHOT_CHUNK_SIZE == 1048576,
                ;
            }
        }
        start = end;
    }
    assert(data@.subrange(0, len as int) =~= data@);
    reqs
}

proof fn lemma_joined_chunks_push(reqs: Seq<SnapshotRequest>, req: SnapshotRequest)
    ensures
        joined_chunks(reqs.push(req)) == joined_chunks(reqs) + chunk_bytes(req),
    decreases reqs.len(),
{
    if reqs.len() == 0 {
        let pushed = reqs.push(req);
        assert(pushed.drop_first() =~= Seq::<SnapshotRequest>::empty());
        assert(pushed[0] == req);
        assert(joined_chunks(pushed.drop_first()) == Seq::<u8>::empty());
        assert(joined_chunks(pushed) =~= chunk_bytes(req) + Seq::<u8>::empty());
        assert(joined_chunks(reqs) == Seq::<u8>::empty());
        assert(joined_chunks(pushed) =~= joined_chunks(reqs) + chunk_bytes(req));
    } else {
        lemma_joined_chunks_push(reqs.drop_first(), req);
        assert(reqs.push(req).drop_first() =~= reqs.drop_first().push(req));
        assert(joined_chunks(reqs.push(req)) =~= chunk_bytes(reqs[0]) + (joined_chunks(
            reqs.drop_first(),
        ) + chunk_bytes(req)));
    }
}

proof fn lemma_receive_chunks(meta: SnapshotRequestMeta, acc: Seq<u8>, reqs: Seq<SnapshotRequest>)
    requires
        forall|k: int| 0 <= k < reqs.len() ==> is_chunk(#[trigger] reqs[k]),
    ensures
        receive_all((Some(meta), acc), reqs) == Ok::<ReceiverView, SnapshotStreamError>(
            (Some(meta), acc + joined_chunks(reqs)),
        ),
    decreases reqs.len(),
{
    if reqs.len() == 0 {
        assert(acc + joined_chunks(reqs) =~= acc);
    } else {
        assert(is_chunk(reqs[0]));
        let rest = reqs.drop_first();
        assert forall|k: int| 0 <= k < rest.len() implies is_chunk(#[trigger] rest[k]) by {
            assert(rest[k] == reqs[k + 1]);
        }
        lemma_receive_chunks(meta, acc + chunk_bytes(reqs[0]), rest);
        assert(acc + chunk_bytes(reqs[0]) + joined_chunks(rest) =~= acc + joined_chunks(reqs));
    }
}

/// What the sender sends is received whole: a fresh receiver that takes a
/// snapshot stream, such as `snapshot_requests(meta, data)` makes, ends with
/// exactly the metadata `meta` and the data `data`.
pub proof fn lemma_snapshot_transfer_roundtrip(
    reqs: Seq<SnapshotRequest>,
    meta: SnapshotRequestMeta,
    data: Seq<u8>,
)
    requires
        is_snapshot_stream(reqs, meta, data),
    ensures
        receive_all((None::<SnapshotRequestMeta>, Seq::<u8>::empty()), reqs) matches Ok(st)
            && finish_spec(st) == Ok::<(SnapshotRequestMeta, Seq<u8>), SnapshotStreamError>(
            (meta, data),
        ),
{
    let rest = reqs.drop_first();
    assert forall|k: int| 0 <= k < rest.len() implies is_chunk(#[trigger] rest[k]) by {
        assert(rest[k] == reqs[k + 1]);
    }
    lemma_receive_chunks(meta, Seq::<u8>::empty(), rest);
    assert(Seq::<u8>::empty() + joined_chunks(rest) =~= data);
}


} // verus!
