//! The log store's bookkeeping: which keys a range read scans and keeps,
//! what the log state is, and which key ranges truncation and purging delete.
//!
//! Log entries live in the `logs` column family under `id_to_bin(index)`;
//! the vote and the last purged log id live in the `meta` column family.
pub mod meta;

use crate::keys::be_bytes;
use crate::keys::be_value;
use crate::keys::bin_to_id;
use crate::keys::id_to_bin;
use crate::keys::lemma_key_order_is_index_order;
use crate::keys::lex_le;
use crate::keys::lex_lt;
use crate::types::LogId;
use crate::types::LogState;
use vstd::prelude::*;

verus! {

/// The column family of the metadata.
pub const META_COLUMN: &'static str = "meta";

/// The column family of the log entries.
pub const LOGS_COLUMN: &'static str = "logs";

/// The column family of the state machine's snapshot.
pub const STORE_COLUMN: &'static str = "store";

/// One end of a range of log indexes.
#[derive(Clone, Copy, Debug, PartialEq, Eq, Structural)]
pub enum IndexBound {
    Included(u64),
    Excluded(u64),
    Unbounded,
}

/// A range of log indexes, as a start bound and an end bound.
#[derive(Clone, Copy, Debug, PartialEq, Eq, Structural)]
pub struct IndexRange {
    pub start: IndexBound,
    pub end: IndexBound,
}

/// Whether `id` lies within `r`.
pub open spec fn range_contains(r: IndexRange, id: u64) -> bool {
    &&& match r.start {
        IndexBound::Included(s) => s <= id,
        IndexBound::Excluded(s) => s < id,
        IndexBound::Unbounded => true,
    }
    &&& match r.end {
        IndexBound::Included(e) => id <= e,
        IndexBound::Excluded(e) => id < e,
        IndexBound::Unbounded => true,
    }
}

/// The first index that a range read asks for.
pub open spec fn start_index(r: IndexRange) -> int {
    match r.start {
        IndexBound::Included(s) => s as int,
        IndexBound::Excluded(s) => s + 1,
        IndexBound::Unbounded => 0,
    }
}

/// Whether a range read can compute its first key: an excluded start bound
/// of `u64::MAX` has no successor.
pub open spec fn start_is_representable(r: IndexRange) -> bool {
    !(r.start matches IndexBound::Excluded(s) && s == u64::MAX)
}

impl IndexRange {
    /// Whether `id` lies within this range.
    pub fn contains(&self, id: u64) -> (b: bool)
        ensures
            b == range_contains(*self, id),
            b <==> {
                &&& self.start matches IndexBound::Included(s) ==> s <= id
                &&& self.start matches IndexBound::Excluded(s) ==> s < id
                &&& self.end matches IndexBound::Included(e) ==> id <= e
                &&& self.end matches IndexBound::Excluded(e) ==> id < e
            },
    {
        let start_ok = match self.start {
            IndexBound::Included(s) => s <= id,
            IndexBound::Excluded(s) => s < id,
            IndexBound::Unbounded => true,
        };
        let end_ok = match self.end {
            IndexBound::Included(e) => id <= e,
            IndexBound::Excluded(e) => id < e,
            IndexBound::Unbounded => true,
        };
        start_ok && end_ok
    }

    /// The key from which a range read iterates the log forward.
    pub fn start_key(&self) -> (key: Vec<u8>)
        requires
            start_is_representable(*self),
        ensures
            key@ == be_bytes(start_index(*self) as u64),
            0 <= start_index(*self) <= u64::MAX,
    {
        match self.start {
            IndexBound::Included(s) => id_to_bin(s),
            IndexBound::Excluded(s) => id_to_bin(s + 1),
            IndexBound::Unbounded => id_to_bin(0),
        }
    }
}

/// One step of a range read: the index stored under `key`, when the range
/// holds it; `None` tells the read to stop.
pub fn scan_key(range: &IndexRange, key: &[u8]) -> (r: Option<u64>)
    requires
        key@.len() >= 8,
    ensures
        match r {
            Some(id) => id as nat == be_value(key@.subrange(0, 8)) && range_contains(*range, id),
            None => !range_contains(*range, be_value(key@.subrange(0, 8)) as u64),
        },
{
    let id = bin_to_id(key);
    if range.contains(id) {
        Some(id)
    } else {
        None
    }
}

/// The log state: the last purged log id as stored, and as last log id the
/// id of the last entry in the log, or the last purged one when the log is empty.
pub fn log_state(last_entry_log_id: Option<LogId>, last_purged_log_id: Option<LogId>) -> (s:
    LogState)
    ensures
        s == log_state_spec(last_entry_log_id, last_purged_log_id),
        s.last_purged_log_id == last_purged_log_id,
        last_entry_log_id matches Some(x) ==> s.last_log_id == Some(x),
        last_entry_log_id is None ==> s.last_log_id == last_purged_log_id,
{
    let last_log_id = match last_entry_log_id {
        None => last_purged_log_id,
        Some(x) => Some(x),
    };
    LogState { last_purged_log_id, last_log_id }
}

/// An index lies in a range exactly when it meets each bound on its own, as
/// Rust's range bounds define them: an included start `s` admits `s <= id`, an
/// excluded start `s <= id` only past `s`, an included end `e` admits
/// `id <= e`, an excluded end `e` only `id < e`, and an unbounded end or start
/// admits every index; neither bound depends on the other.
pub proof fn lemma_range_contains_meets_each_bound(r: IndexRange, id: u64)
    ensures
        range_contains(r, id) <==> {
            &&& r.start matches IndexBound::Included(s) ==> s <= id
            &&& r.start matches IndexBound::Excluded(s) ==> s < id
            &&& r.end matches IndexBound::Included(e) ==> id <= e
            &&& r.end matches IndexBound::Excluded(e) ==> id < e
        },
        range_contains(r, id) <==> range_contains(IndexRange { start: r.start, end: IndexBound::Unbounded }, id)
            && range_contains(IndexRange { start: IndexBound::Unbounded, end: r.end }, id),
        range_contains(IndexRange { start: IndexBound::Unbounded, end: IndexBound::Unbounded }, id),
{
}

/// The log state reports the stored last purged log id as it is, and as last
/// log id the id of the last entry whenever the log holds one, whatever was
/// purged; only an empty log falls back to the last purged log id.
pub proof fn lemma_log_state_reports_last_entry(last_entry_log_id: Option<LogId>, last_purged_log_id: Option<LogId>)
    ensures
        log_state_spec(last_entry_log_id, last_purged_log_id).last_purged_log_id == last_purged_log_id,
        last_entry_log_id matches Some(x) ==> log_state_spec(last_entry_log_id, last_purged_log_id).last_log_id == Some(x),
        last_entry_log_id is None ==> log_state_spec(last_entry_log_id, last_purged_log_id).last_log_id == last_purged_log_id,
        log_state_spec(last_entry_log_id, last_purged_log_id).last_log_id is None <==> last_entry_log_id is None
            && last_purged_log_id is None,
{
}

/// The keys `[from, to)` that truncating the log at `log_id` deletes: from
/// the key of `log_id.index` up to the key of `u64::MAX`, which the deletion excludes.
pub fn truncate_key_range(log_id: LogId) -> (r: (Vec<u8>, Vec<u8>))
    ensures
        r.0@ == be_bytes(log_id.index),
        r.1@ == be_bytes(u64::MAX),
{
    let from = id_to_bin(log_id.index);
    let to = id_to_bin(u64::MAX);
    (from, to)
}

/// The keys `[from, to)` that purging the log up to `log_id` deletes: from
/// the key of index 0 up to the key of `log_id.index + 1`.
pub fn purge_key_range(log_id: LogId) -> (r: (Vec<u8>, Vec<u8>))
    requires
        log_id.index < u64::MAX,
    ensures
        r.0@ == be_bytes(0),
        r.1@ == be_bytes((log_id.index + 1) as u64),
{
    let from = id_to_bin(0);
    let to = id_to_bin(log_id.index + 1);
    (from, to)
}

/// Whether a deletion of the keys `[from, to)` reaches `key`.
pub open spec fn in_key_range(key: Seq<u8>, from: Seq<u8>, to: Seq<u8>) -> bool {
    lex_le(from, key) && lex_lt(key, to)
}

/// The column family `m` after deleting the keys `[from, to)`.
pub open spec fn delete_range<V>(m: Map<Seq<u8>, V>, from: Seq<u8>, to: Seq<u8>) -> Map<Seq<u8>, V> {
    m.restrict(m.dom().filter(|k: Seq<u8>| !in_key_range(k, from, to)))
}

/// A range read starts at a key at or before the key of every index in the
/// range, and iterating forward from it, once an index falls outside the
/// range no later index lies in it: stopping there misses no entry.
pub proof fn lemma_range_read_covers_range(r: IndexRange, i: u64, j: u64)
    requires
        start_is_representable(r),
    ensures
        0 <= start_index(r) <= u64::MAX,
        range_contains(r, i) ==> lex_le(be_bytes(start_index(r) as u64), be_bytes(i)),
        start_index(r) <= i <= j && !range_contains(r, i) ==> !range_contains(r, j),
{
    lemma_key_order_is_index_order(start_index(r) as u64, i);
}

/// Truncating at `log_id` deletes exactly the entries whose index is at
/// least `log_id.index`. (The deletion stops short of the key of `u64::MAX`,
/// so an entry at that index is kept; no index below it is affected.)
pub proof fn lemma_truncate_deletes_suffix<V>(m: Map<Seq<u8>, V>, log_id: LogId, i: u64)
    requires
        i < u64::MAX,
    ensures
        in_key_range(be_bytes(i), be_bytes(log_id.index), be_bytes(u64::MAX)) <==> log_id.index
            <= i,
        delete_range(m, be_bytes(log_id.index), be_bytes(u64::MAX)).contains_key(be_bytes(i))
            <==> m.contains_key(be_bytes(i)) && i < log_id.index,
{
    lemma_key_order_is_index_order(log_id.index, i);
    lemma_key_order_is_index_order(i, u64::MAX);
}

/// Purging up to `log_id` deletes exactly the entries whose index is at
/// most `log_id.index`.
pub proof fn lemma_purge_deletes_prefix<V>(m: Map<Seq<u8>, V>, log_id: LogId, i: u64)
    requires
        log_id.index < u64::MAX,
    ensures
        in_key_range(be_bytes(i), be_bytes(0), be_bytes((log_id.index + 1) as u64)) <==> i
            <= log_id.index,
        delete_range(m, be_bytes(0), be_bytes((log_id.index + 1) as u64)).contains_key(
            be_bytes(i),
        ) <==> m.contains_key(be_bytes(i)) && log_id.index < i,
{
    lemma_key_order_is_index_order(0, i);
    lemma_key_order_is_index_order(i, (log_id.index + 1) as u64);
}

/// What a range read keeps of the indexes that it visits, in order: the
/// leading ones that lie in the range; the first index outside it ends the read.
pub open spec fn take_in_range(r: IndexRange, visited: Seq<u64>) -> Seq<u64>
    decreases visited.len(),
{
    if visited.len() == 0 || !range_contains(r, visited[0]) {
        Seq::empty()
    } else {
        seq![visited[0]] + take_in_range(r, visited.drop_first())
    }
}

/// Whether a sequence of indexes is strictly increasing.
pub open spec fn strictly_increasing(s: Seq<u64>) -> bool {
    forall|j: int, k: int| 0 <= j < k < s.len() ==> s[j] < s[k]
}

proof fn lemma_take_in_range_is_prefix(r: IndexRange, s: Seq<u64>)
    ensures
        take_in_range(r, s).len() <= s.len(),
        forall|k: int| 0 <= k < take_in_range(r, s).len() ==> #[trigger] take_in_range(r, s)[k] == s[k],
    decreases s.len(),
{
    if s.len() > 0 && range_contains(r, s[0]) {
        lemma_take_in_range_is_prefix(r, s.drop_first());
        let t = take_in_range(r, s.drop_first());
        assert forall|k: int| 0 <= k < take_in_range(r, s).len() implies #[trigger] take_in_range(r, s)[k] == s[k] by {
            if k > 0 {
                assert(take_in_range(r, s)[k] == t[k - 1]);
            }
        }
    }
}

proof fn lemma_take_in_range_contents<V>(
    m: Map<Seq<u8>, V>,
    r: IndexRange,
    s: Seq<u64>,
    lo: int,
)
    requires
        start_is_representable(r),
        start_index(r) <= lo,
        strictly_increasing(s),
        forall|k: int| 0 <= k < s.len() ==> lo <= #[trigger] s[k],
        forall|k: int| 0 <= k < s.len() ==> m.contains_key(be_bytes(#[trigger] s[k])),
        forall|i: u64| #[trigger] m.contains_key(be_bytes(i)) && lo <= i ==> s.contains(i),
    ensures
        forall|i: u64| #[trigger] take_in_range(r, s).contains(i) <==> m.contains_key(be_bytes(i))
            && range_contains(r, i) && lo <= i,
    decreases s.len(),
{
    if s.len() == 0 {
        assert forall|i: u64| !(#[trigger] m.contains_key(be_bytes(i)) && range_contains(r, i) && lo
            <= i) by {
            if m.contains_key(be_bytes(i)) && lo <= i {
                assert(s.contains(i));
            }
        }
    } else if !range_contains(r, s[0]) {
        assert forall|i: u64| !(#[trigger] m.contains_key(be_bytes(i)) && range_contains(r, i) && lo
            <= i) by {
            if m.contains_key(be_bytes(i)) && range_contains(r, i) && lo <= i {
                assert(s.contains(i));
                let k = choose|k: int| 0 <= k < s.len() && s[k] == i;
                if k > 0 {
                    assert(s[0] < s[k]);
                }
                lemma_range_read_covers_range(r, s[0], i);
            }
        }
    } else {
        let rest = s.drop_first();
        assert forall|k: int| 0 <= k < rest.len() implies s[0] + 1 <= #[trigger] rest[k] by {
            assert(rest[k] == s[k + 1]);
        }
        assert forall|k: int| 0 <= k < rest.len() implies m.contains_key(be_bytes(#[trigger] rest[k])) by {
            assert(rest[k] == s[k + 1]);
        }
        assert forall|i: u64| #[trigger] m.contains_key(be_bytes(i)) && s[0] + 1 <= i implies rest.contains(i) by {
            assert(s.contains(i));
            let k = choose|k: int| 0 <= k < s.len() && s[k] == i;
            assert(k != 0);
            assert(rest[k - 1] == i);
        }
        lemma_take_in_range_contents(m, r, rest, s[0] + 1);
        let t = take_in_range(r, s);
        assert(t == seq![s[0]] + take_in_range(r, rest));
        assert forall|i: u64| #[trigger] t.contains(i) <==> m.contains_key(be_bytes(i))
            && range_contains(r, i) && lo <= i by {
            if t.contains(i) {
                let k = choose|k: int| 0 <= k < t.len() && t[k] == i;
                if k > 0 {
                    assert(take_in_range(r, rest)[k - 1] == i);
                    assert(take_in_range(r, rest).contains(i));
                }
            }
            if m.contains_key(be_bytes(i)) && range_contains(r, i) && lo <= i {
                if i == s[0] {
                    assert(t[0] == i);
                } else {
                    assert(s.contains(i));
                    let k = choose|k: int| 0 <= k < s.len() && s[k] == i;
                    assert(k != 0);
                    assert(s[0] < s[k]);
                    assert(take_in_range(r, rest).contains(i));
                    let j = choose|j: int| 0 <= j < take_in_range(r, rest).len() && take_in_range(r, rest)[j] == i;
                    assert(t[j + 1] == i);
                }
            }
        }
    }
}

/// A range read returns exactly the stored entries whose index lies in the
/// range, in increasing order. Let `visited` be the indexes of the log
/// column family `m` (whose keys are `be_bytes` of indexes) from the read's
/// start key on, in the column family's bytewise key order; the read keeps
/// the indexes that `scan_key` accepts until its first refusal, that is
/// `take_in_range(r, visited)`. That order is the increasing order of the
/// indexes, every visited key sorts at or after the start key, and what the
/// read keeps holds every stored index of the range and nothing else.
pub proof fn lemma_range_read_result<V>(m: Map<Seq<u8>, V>, r: IndexRange, visited: Seq<u64>)
    requires
        start_is_representable(r),
        strictly_increasing(visited),
        forall|k: int| 0 <= k < visited.len() ==> start_index(r) <= #[trigger] visited[k],
        forall|k: int| 0 <= k < visited.len() ==> m.contains_key(be_bytes(#[trigger] visited[k])),
        forall|i: u64| #[trigger] m.contains_key(be_bytes(i)) && start_index(r) <= i ==> visited.contains(i),
    ensures
        forall|j: int, k: int|
            0 <= j < k < visited.len() ==> lex_lt(be_bytes(#[trigger] visited[j]), be_bytes(#[trigger] visited[k])),
        forall|k: int|
            0 <= k < visited.len() ==> lex_le(be_bytes(start_index(r) as u64), be_bytes(#[trigger] visited[k])),
        forall|i: u64| #[trigger] take_in_range(r, visited).contains(i) <==> m.contains_key(be_bytes(i))
            && range_contains(r, i),
        strictly_increasing(take_in_range(r, visited)),
{
    assert forall|j: int, k: int| 0 <= j < k < visited.len() implies lex_lt(
        be_bytes(#[trigger] visited[j]),
        be_bytes(#[trigger] visited[k]),
    ) by {
        lemma_key_order_is_index_order(visited[j], visited[k]);
    }
    assert forall|k: int| 0 <= k < visited.len() implies lex_le(
        be_bytes(start_index(r) as u64),
        be_bytes(#[trigger] visited[k]),
    ) by {
        lemma_key_order_is_index_order(start_index(r) as u64, visited[k]);
    }
    lemma_take_in_range_contents(m, r, visited, start_index(r));
    assert forall|i: u64| m.contains_key(be_bytes(i)) && range_contains(r, i) implies start_index(r) <= i by {
    }
    lemma_take_in_range_is_prefix(r, visited);
}

/// The order of log ids: by committed leader id, then by index.
pub open spec fn log_id_le(a: LogId, b: LogId) -> bool {
    a.leader_id < b.leader_id || (a.leader_id == b.leader_id && a.index <= b.index)
}

/// The order of optional log ids, with `None` below every log id.
pub open spec fn opt_log_id_le(a: Option<LogId>, b: Option<LogId>) -> bool {
    match (a, b) {
        (None, _) => true,
        (Some(_), None) => false,
        (Some(x), Some(y)) => log_id_le(x, y),
    }
}

/// The log state that `log_state` computes.
pub open spec fn log_state_spec(last_entry_log_id: Option<LogId>, last_purged_log_id: Option<LogId>) -> LogState {
    LogState {
        last_purged_log_id,
        last_log_id: match last_entry_log_id {
            Some(x) => Some(x),
            None => last_purged_log_id,
        },
    }
}

/// What the log store keeps, seen through the log ids of its entries: the
/// log column family `logs` (each entry's log id under the key of its
/// index) and the last purged log id.
///
/// Its invariant: every entry is stored under the key of its index, log ids
/// grow with indexes, and every entry lies after the last purged log id.
pub open spec fn log_store_inv(logs: Map<Seq<u8>, LogId>, last_purged: Option<LogId>) -> bool {
    &&& forall|k: Seq<u8>| #[trigger] logs.contains_key(k) ==> k == be_bytes(logs[k].index)
    &&& forall|k1: Seq<u8>, k2: Seq<u8>|
        #[trigger] logs.contains_key(k1) && #[trigger] logs.contains_key(k2) && logs[k1].index
            <= logs[k2].index ==> log_id_le(logs[k1], logs[k2])
    &&& match last_purged {
        Some(p) => forall|k: Seq<u8>| #[trigger] logs.contains_key(k) ==> p.index < logs[k].index
            && log_id_le(p, logs[k]),
        None => true,
    }
}

/// An empty store meets the invariant.
pub proof fn lemma_empty_store_inv()
    ensures
        log_store_inv(Map::<Seq<u8>, LogId>::empty(), None),
{
}

/// Appending an entry that fits the log, after the last purged log id and
/// ordered with the entries around it, as Raft appends, keeps the invariant.
pub proof fn lemma_append_keeps_inv(logs: Map<Seq<u8>, LogId>, last_purged: Option<LogId>, e: LogId)
    requires
        log_store_inv(logs, last_purged),
        last_purged matches Some(p) ==> p.index < e.index && log_id_le(p, e),
        forall|k: Seq<u8>| #[trigger] logs.contains_key(k) && logs[k].index < e.index ==> log_id_le(logs[k], e),
        forall|k: Seq<u8>| #[trigger] logs.contains_key(k) && e.index < logs[k].index ==> log_id_le(e, logs[k]),
    ensures
        log_store_inv(logs.insert(be_bytes(e.index), e), last_purged),
{
    let n = logs.insert(be_bytes(e.index), e);
    assert forall|k: Seq<u8>| #[trigger] n.contains_key(k) implies k == be_bytes(n[k].index) by {
        if k != be_bytes(e.index) {
            assert(logs.contains_key(k));
        }
    }
    assert forall|k1: Seq<u8>, k2: Seq<u8>|
        #[trigger] n.contains_key(k1) && #[trigger] n.contains_key(k2) && n[k1].index <= n[k2].index
        implies log_id_le(n[k1], n[k2]) by {
        if k1 != be_bytes(e.index) && k2 != be_bytes(e.index) {
            assert(logs.contains_key(k1) && logs.contains_key(k2));
        } else if k1 == be_bytes(e.index) && k2 != be_bytes(e.index) {
            assert(logs.contains_key(k2));
            assert(k2 == be_bytes(logs[k2].index));
            if logs[k2].index == e.index {
                assert(k2 == k1);
            }
        } else if k1 != be_bytes(e.index) && k2 == be_bytes(e.index) {
            assert(logs.contains_key(k1));
            assert(k1 == be_bytes(logs[k1].index));
            if logs[k1].index == e.index {
                assert(k2 == k1);
            }
        }
    }
}

/// Truncating the log keeps the invariant.
pub proof fn lemma_truncate_keeps_inv(logs: Map<Seq<u8>, LogId>, last_purged: Option<LogId>, log_id: LogId)
    requires
        log_store_inv(logs, last_purged),
    ensures
        log_store_inv(delete_range(logs, be_bytes(log_id.index), be_bytes(u64::MAX)), last_purged),
{
    let n = delete_range(logs, be_bytes(log_id.index), be_bytes(u64::MAX));
    assert forall|k: Seq<u8>| #[trigger] n.contains_key(k) implies logs.contains_key(k) && n[k] == logs[k] by {
    }
}

/// Purging up to a log id that follows the last purged one and precedes
/// every entry kept, as Raft purges, keeps the invariant with that log id
/// as the last purged one.
pub proof fn lemma_purge_keeps_inv(logs: Map<Seq<u8>, LogId>, last_purged: Option<LogId>, log_id: LogId)
    requires
        log_store_inv(logs, last_purged),
        log_id.index < u64::MAX,
        last_purged matches Some(p) ==> log_id_le(p, log_id),
        forall|k: Seq<u8>| #[trigger] logs.contains_key(k) && log_id.index < logs[k].index ==> log_id_le(log_id, logs[k]),
    ensures
        log_store_inv(delete_range(logs, be_bytes(0), be_bytes((log_id.index + 1) as u64)), Some(log_id)),
{
    let n = delete_range(logs, be_bytes(0), be_bytes((log_id.index + 1) as u64));
    assert forall|k: Seq<u8>| #[trigger] n.contains_key(k) implies logs.contains_key(k) && n[k] == logs[k]
        && log_id.index < logs[k].index by {
        assert(k == be_bytes(logs[k].index));
        lemma_purge_deletes_prefix(logs, log_id, logs[k].index);
    }
}

/// Under the invariant, the log state orders its ids: the last purged log id
/// is at most the last log id, and with no last log id nothing was purged.
/// `last_entry` is the key of the entry that the log state reads, if any.
pub proof fn lemma_log_state_orders_ids(
    logs: Map<Seq<u8>, LogId>,
    last_purged: Option<LogId>,
    last_entry: Option<Seq<u8>>,
)
    requires
        log_store_inv(logs, last_purged),
        last_entry matches Some(k) ==> logs.contains_key(k),
    ensures
        ({
            let st = log_state_spec(
                match last_entry {
                    Some(k) => Some(logs[k]),
                    None => None,
                },
                last_purged,
            );
            &&& opt_log_id_le(st.last_purged_log_id, st.last_log_id)
            &&& st.last_log_id is None ==> st.last_purged_log_id is None
        }),
{
}

/// The indexes of a sequence of log ids, in order.
pub open spec fn indexes_of(es: Seq<LogId>) -> Seq<u64>
    decreases es.len(),
{
    if es.len() == 0 {
        Seq::empty()
    } else {
        seq![es[0].index] + indexes_of(es.drop_first())
    }
}

/// The log ids of `es` whose index lies in `r`, in the order of `es`.
pub open spec fn log_ids_in_range(r: IndexRange, es: Seq<LogId>) -> Seq<LogId>
    decreases es.len(),
{
    if es.len() == 0 {
        Seq::empty()
    } else if range_contains(r, es[0].index) {
        seq![es[0]] + log_ids_in_range(r, es.drop_first())
    } else {
        log_ids_in_range(r, es.drop_first())
    }
}

/// The indexes of `s` that are at least `lo`, in order.
pub open spec fn indexes_from(lo: int, s: Seq<u64>) -> Seq<u64>
    decreases s.len(),
{
    if s.len() == 0 {
        Seq::empty()
    } else if lo <= s[0] {
        seq![s[0]] + indexes_from(lo, s.drop_first())
    } else {
        indexes_from(lo, s.drop_first())
    }
}

/// The log column family after appending `es` in order to `m`: each log id
/// under the key of its index.
pub open spec fn append_all(m: Map<Seq<u8>, LogId>, es: Seq<LogId>) -> Map<Seq<u8>, LogId>
    decreases es.len(),
{
    if es.len() == 0 {
        m
    } else {
        append_all(m.insert(be_bytes(es[0].index), es[0]), es.drop_first())
    }
}

proof fn lemma_indexes_of(es: Seq<LogId>)
    ensures
        indexes_of(es).len() == es.len(),
        forall|k: int| 0 <= k < es.len() ==> #[trigger] indexes_of(es)[k] == es[k].index,
    decreases es.len(),
{
    if es.len() > 0 {
        lemma_indexes_of(es.drop_first());
        assert forall|k: int| 0 <= k < es.len() implies #[trigger] indexes_of(es)[k] == es[k].index by {
            if k > 0 {
                assert(indexes_of(es)[k] == indexes_of(es.drop_first())[k - 1]);
            }
        }
    }
}

proof fn lemma_indexes_from(lo: int, s: Seq<u64>)
    ensures
        forall|i: u64| #[trigger] indexes_from(lo, s).contains(i) <==> s.contains(i) && lo <= i,
        strictly_increasing(s) ==> strictly_increasing(indexes_from(lo, s)),
    decreases s.len(),
{
    if s.len() > 0 {
        let rest = s.drop_first();
        lemma_indexes_from(lo, rest);
        let t = indexes_from(lo, s);
        let tr = indexes_from(lo, rest);
        assert forall|i: u64| #[trigger] t.contains(i) <==> s.contains(i) && lo <= i by {
            if s.contains(i) && lo <= i {
                let k = choose|k: int| 0 <= k < s.len() && s[k] == i;
                if k > 0 {
                    assert(rest[k - 1] == i);
                    assert(tr.contains(i));
                    let j = choose|j: int| 0 <= j < tr.len() && tr[j] == i;
                    if lo <= s[0] {
                        assert(t[j + 1] == i);
                    }
                } else {
                    assert(t[0] == i);
                }
            }
            if t.contains(i) {
                let j = choose|j: int| 0 <= j < t.len() && t[j] == i;
                if lo <= s[0] && j == 0 {
                } else {
                    let jj = if lo <= s[0] { j - 1 } else { j };
                    assert(tr[jj] == i);
                    assert(tr.contains(i));
                    let k = choose|k: int| 0 <= k < rest.len() && rest[k] == i;
                    assert(s[k + 1] == i);
                }
            }
        }
        if strictly_increasing(s) {
            assert(strictly_increasing(rest)) by {
                assert forall|j: int, k: int| 0 <= j < k < rest.len() implies rest[j] < rest[k] by {
                    assert(rest[j] == s[j + 1] && rest[k] == s[k + 1]);
                }
            }
            if lo <= s[0] {
                assert forall|j: int, k: int| 0 <= j < k < t.len() implies t[j] < t[k] by {
                    assert(t[k] == tr[k - 1]);
                    assert(tr.contains(t[k]));
                    if j > 0 {
                        assert(t[j] == tr[j - 1]);
                    } else {
                        let m = choose|m: int| 0 <= m < rest.len() && rest[m] == t[k];
                        assert(s[m + 1] == t[k]);
                    }
                }
            }
        }
    }
}

proof fn lemma_strictly_increasing_rest(s: Seq<u64>)
    requires
        s.len() > 0,
        strictly_increasing(s),
    ensures
        strictly_increasing(s.drop_first()),
        forall|i: u64| #[trigger] s.drop_first().contains(i) ==> s[0] < i,
        !s.drop_first().contains(s[0]),
{
    let rest = s.drop_first();
    assert forall|j: int, k: int| 0 <= j < k < rest.len() implies rest[j] < rest[k] by {
        assert(rest[j] == s[j + 1] && rest[k] == s[k + 1]);
    }
    assert forall|i: u64| #[trigger] rest.contains(i) implies s[0] < i by {
        let k = choose|k: int| 0 <= k < rest.len() && rest[k] == i;
        assert(s[k + 1] == i);
    }
}

/// Two strictly increasing sequences with the same elements are equal.
proof fn lemma_increasing_same_elements(a: Seq<u64>, b: Seq<u64>)
    requires
        strictly_increasing(a),
        strictly_increasing(b),
        forall|i: u64| a.contains(i) <==> b.contains(i),
    ensures
        a == b,
    decreases a.len(),
{
    if a.len() == 0 {
        if b.len() > 0 {
            assert(b.contains(b[0]));
        }
        assert(b.len() == 0);
        assert(a =~= b);
    } else {
        assert(a.contains(a[0]));
        assert(b.contains(a[0]));
        assert(b.len() > 0);
        assert(b.contains(b[0]));
        assert(a.contains(b[0]));
        let ka = choose|k: int| 0 <= k < a.len() && a[k] == b[0];
        let kb = choose|k: int| 0 <= k < b.len() && b[k] == a[0];
        if ka > 0 {
            assert(a[0] < a[ka]);
        }
        if kb > 0 {
            assert(b[0] < b[kb]);
        }
        assert(a[0] == b[0]);
        lemma_strictly_increasing_rest(a);
        lemma_strictly_increasing_rest(b);
        let ra = a.drop_first();
        let rb = b.drop_first();
        assert forall|i: u64| ra.contains(i) <==> rb.contains(i) by {
            if ra.contains(i) {
                let k = choose|k: int| 0 <= k < ra.len() && ra[k] == i;
                assert(a[k + 1] == i);
                assert(a.contains(i));
                assert(b.contains(i));
                let m = choose|m: int| 0 <= m < b.len() && b[m] == i;
                assert(m != 0);
                assert(rb[m - 1] == i);
            }
            if rb.contains(i) {
                let k = choose|k: int| 0 <= k < rb.len() && rb[k] == i;
                assert(b[k + 1] == i);
                assert(b.contains(i));
                assert(a.contains(i));
                let m = choose|m: int| 0 <= m < a.len() && a[m] == i;
                assert(m != 0);
                assert(ra[m - 1] == i);
            }
        }
        lemma_increasing_same_elements(ra, rb);
        assert(a =~= b) by {
            assert forall|k: int| 0 <= k < a.len() implies a[k] == b[k] by {
                if k > 0 {
                    assert(a[k] == ra[k - 1] && b[k] == rb[k - 1]);
                }
            }
        }
    }
}

proof fn lemma_log_ids_in_range(r: IndexRange, es: Seq<LogId>)
    ensures
        forall|i: u64| #[trigger] indexes_of(log_ids_in_range(r, es)).contains(i) <==> indexes_of(
            es,
        ).contains(i) && range_contains(r, i),
        strictly_increasing(indexes_of(es)) ==> strictly_increasing(
            indexes_of(log_ids_in_range(r, es)),
        ),
        forall|k: int| 0 <= k < log_ids_in_range(r, es).len() ==> es.contains(
            #[trigger] log_ids_in_range(r, es)[k],
        ),
    decreases es.len(),
{
    lemma_indexes_of(es);
    lemma_indexes_of(log_ids_in_range(r, es));
    if es.len() > 0 {
        let rest = es.drop_first();
        lemma_log_ids_in_range(r, rest);
        lemma_indexes_of(rest);
        let l = log_ids_in_range(r, es);
        let lr = log_ids_in_range(r, rest);
        lemma_indexes_of(lr);
        assert(indexes_of(es) == seq![es[0].index] + indexes_of(rest));
        assert forall|i: u64| #[trigger] indexes_of(l).contains(i) <==> indexes_of(es).contains(i)
            && range_contains(r, i) by {
            if indexes_of(l).contains(i) {
                let k = choose|k: int| 0 <= k < indexes_of(l).len() && indexes_of(l)[k] == i;
                if range_contains(r, es[0].index) && k == 0 {
                    assert(indexes_of(es)[0] == i);
                } else {
                    let kk = if range_contains(r, es[0].index) { k - 1 } else { k };
                    assert(indexes_of(lr)[kk] == i);
                    assert(indexes_of(lr).contains(i));
                    let m = choose|m: int| 0 <= m < indexes_of(rest).len() && indexes_of(rest)[m] == i;
                    assert(indexes_of(es)[m + 1] == i);
                }
            }
            if indexes_of(es).contains(i) && range_contains(r, i) {
                let k = choose|k: int| 0 <= k < indexes_of(es).len() && indexes_of(es)[k] == i;
                if k == 0 {
                    assert(indexes_of(l)[0] == i);
                } else {
                    assert(indexes_of(rest)[k - 1] == i);
                    assert(indexes_of(lr).contains(i));
                    let m = choose|m: int| 0 <= m < indexes_of(lr).len() && indexes_of(lr)[m] == i;
                    if range_contains(r, es[0].index) {
                        assert(indexes_of(l)[m + 1] == i);
                    } else {
                        assert(indexes_of(l)[m] == i);
                    }
                }
            }
        }
        if strictly_increasing(indexes_of(es)) {
            lemma_strictly_increasing_rest(indexes_of(es));
            assert(indexes_of(es).drop_first() =~= indexes_of(rest));
            if range_contains(r, es[0].index) {
                assert forall|j: int, k: int| 0 <= j < k < indexes_of(l).len() implies indexes_of(l)[j]
                    < indexes_of(l)[k] by {
                    assert(indexes_of(l)[k] == indexes_of(lr)[k - 1]);
                    assert(indexes_of(lr).contains(indexes_of(l)[k]));
                    assert(indexes_of(rest).contains(indexes_of(l)[k]));
                    if j > 0 {
                        assert(indexes_of(l)[j] == indexes_of(lr)[j - 1]);
                    }
                }
            } else {
                assert(indexes_of(l) == indexes_of(lr));
            }
        }
        assert forall|k: int| 0 <= k < l.len() implies es.contains(#[trigger] l[k]) by {
            if range_contains(r, es[0].index) && k == 0 {
                assert(es[0] == l[k]);
            } else {
                let kk = if range_contains(r, es[0].index) { k - 1 } else { k };
                assert(l[k] == lr[kk]);
                assert(rest.contains(lr[kk]));
                let m = choose|m: int| 0 <= m < rest.len() && rest[m] == lr[kk];
                assert(es[m + 1] == l[k]);
            }
        }
    }
}

proof fn lemma_append_all(m: Map<Seq<u8>, LogId>, es: Seq<LogId>)
    requires
        strictly_increasing(indexes_of(es)),
    ensures
        forall|key: Seq<u8>| #[trigger] append_all(m, es).contains_key(key) <==> m.contains_key(key)
            || exists|k: int| 0 <= k < es.len() && key == be_bytes(es[k].index),
        forall|k: int| 0 <= k < es.len() ==> #[trigger] append_all(m, es)[be_bytes(es[k].index)]
            == es[k],
    decreases es.len(),
{
    lemma_indexes_of(es);
    if es.len() > 0 {
        let rest = es.drop_first();
        let m1 = m.insert(be_bytes(es[0].index), es[0]);
        lemma_strictly_increasing_rest(indexes_of(es));
        assert(indexes_of(es) == seq![es[0].index] + indexes_of(rest));
        assert(indexes_of(es).drop_first() =~= indexes_of(rest));
        lemma_indexes_of(rest);
        lemma_append_all(m1, rest);
        let n = append_all(m, es);
        assert(n == append_all(m1, rest));
        assert forall|key: Seq<u8>| #[trigger] n.contains_key(key) <==> m.contains_key(key)
            || exists|k: int| 0 <= k < es.len() && key == be_bytes(es[k].index) by {
            if exists|k: int| 0 <= k < rest.len() && key == be_bytes(rest[k].index) {
                let k = choose|k: int| 0 <= k < rest.len() && key == be_bytes(rest[k].index);
                assert(es[k + 1] == rest[k]);
            }
            if exists|k: int| 0 <= k < es.len() && key == be_bytes(es[k].index) {
                let k = choose|k: int| 0 <= k < es.len() && key == be_bytes(es[k].index);
                if k > 0 {
                    assert(rest[k - 1] == es[k]);
                }
            }
        }
        assert forall|k: int| 0 <= k < es.len() implies #[trigger] n[be_bytes(es[k].index)] == es[k] by {
            if k > 0 {
                assert(rest[k - 1] == es[k]);
            } else {
                assert forall|j: int| 0 <= j < rest.len() implies be_bytes(rest[j].index) != be_bytes(es[0].index) by {
                    assert(indexes_of(es)[j + 1] == rest[j].index);
                    assert(es[0].index < rest[j].index);
                    crate::keys::lemma_be_bytes_injective(rest[j].index, es[0].index);
                }
                lemma_append_all_keeps(m1, rest, be_bytes(es[0].index));
            }
        }
    }
}

proof fn lemma_append_all_keeps(m: Map<Seq<u8>, LogId>, es: Seq<LogId>, key: Seq<u8>)
    requires
        m.contains_key(key),
        forall|j: int| 0 <= j < es.len() ==> be_bytes(#[trigger] es[j].index) != key,
    ensures
        append_all(m, es).contains_key(key),
        append_all(m, es)[key] == m[key],
    decreases es.len(),
{
    if es.len() > 0 {
        let rest = es.drop_first();
        assert forall|j: int| 0 <= j < rest.len() implies be_bytes(#[trigger] rest[j].index) != key by {
            assert(rest[j] == es[j + 1]);
        }
        lemma_append_all_keeps(m.insert(be_bytes(es[0].index), es[0]), rest, key);
    }
}

/// Read after append: after appending the log ids `es` (strictly increasing
/// indexes) to an empty log, a range read over `r` returns the entries of
/// `es` whose index lies in `r`, in the order of `es`. The read visits the
/// stored indexes from its start key on, in key order (`visited`); it keeps
/// `take_in_range(r, visited)`, which are the indexes of
/// `log_ids_in_range(r, es)`, and under each of them finds that entry.
pub proof fn lemma_read_after_append(es: Seq<LogId>, r: IndexRange)
    requires
        start_is_representable(r),
        strictly_increasing(indexes_of(es)),
    ensures
        ({
            let m = append_all(Map::<Seq<u8>, LogId>::empty(), es);
            let visited = indexes_from(start_index(r), indexes_of(es));
            let read = log_ids_in_range(r, es);
            &&& strictly_increasing(visited)
            &&& forall|k: int| 0 <= k < visited.len() ==> start_index(r) <= #[trigger] visited[k]
            &&& forall|k: int| 0 <= k < visited.len() ==> m.contains_key(be_bytes(#[trigger] visited[k]))
            &&& forall|i: u64| #[trigger] m.contains_key(be_bytes(i)) && start_index(r) <= i ==> visited.contains(i)
            &&& take_in_range(r, visited) == indexes_of(read)
            &&& forall|k: int| 0 <= k < read.len() ==> #[trigger] m[be_bytes(read[k].index)] == read[k]
        }),
{
    let m = append_all(Map::<Seq<u8>, LogId>::empty(), es);
    let ix = indexes_of(es);
    let visited = indexes_from(start_index(r), ix);
    let read = log_ids_in_range(r, es);
    lemma_indexes_of(es);
    lemma_append_all(Map::<Seq<u8>, LogId>::empty(), es);
    lemma_indexes_from(start_index(r), ix);
    assert forall|k: int| 0 <= k < visited.len() implies start_index(r) <= #[trigger] visited[k] by {
        assert(visited.contains(visited[k]));
    }
    assert forall|k: int| 0 <= k < visited.len() implies m.contains_key(be_bytes(#[trigger] visited[k])) by {
        assert(visited.contains(visited[k]));
        assert(ix.contains(visited[k]));
        let j = choose|j: int| 0 <= j < ix.len() && ix[j] == visited[k];
        assert(be_bytes(visited[k]) == be_bytes(es[j].index));
    }
    assert forall|i: u64| #[trigger] m.contains_key(be_bytes(i)) && start_index(r) <= i implies visited.contains(i) by {
        let k = choose|k: int| 0 <= k < es.len() && be_bytes(i) == be_bytes(es[k].index);
        crate::keys::lemma_be_bytes_injective(i, es[k].index);
        assert(ix[k] == i);
        assert(ix.contains(i));
    }
    lemma_range_read_result(m, r, visited);
    lemma_log_ids_in_range(r, es);
    assert forall|i: u64| take_in_range(r, visited).contains(i) <==> indexes_of(read).contains(i) by {
        if m.contains_key(be_bytes(i)) {
            let k = choose|k: int| 0 <= k < es.len() && be_bytes(i) == be_bytes(es[k].index);
            crate::keys::lemma_be_bytes_injective(i, es[k].index);
            assert(ix[k] == i);
        }
        if ix.contains(i) {
            let k = choose|k: int| 0 <= k < ix.len() && ix[k] == i;
            assert(m.contains_key(be_bytes(es[k].index)));
        }
    }
    lemma_increasing_same_elements(take_in_range(r, visited), indexes_of(read));
    assert forall|k: int| 0 <= k < read.len() implies #[trigger] m[be_bytes(read[k].index)] == read[k] by {
        assert(es.contains(read[k]));
        let j = choose|j: int| 0 <= j < es.len() && es[j] == read[k];
        assert(m[be_bytes(es[j].index)] == es[j]);
    }
}

/// One change that Raft makes to the log store: appending an entry,
/// truncating the log from a log id on, or purging it up to a log id.
#[derive(Clone, Copy, Debug, PartialEq, Eq, Structural)]
pub enum LogOp {
    Append(LogId),
    Truncate(LogId),
    Purge(LogId),
}

/// The store, as its log column family and its last purged log id, after one change.
pub open spec fn apply_log_op(logs: Map<Seq<u8>, LogId>, last_purged: Option<LogId>, op: LogOp) -> (
    Map<Seq<u8>, LogId>,
    Option<LogId>,
) {
    match op {
        LogOp::Append(e) => (logs.insert(be_bytes(e.index), e), last_purged),
        LogOp::Truncate(l) => (delete_range(logs, be_bytes(l.index), be_bytes(u64::MAX)), last_purged),
        LogOp::Purge(l) => (delete_range(logs, be_bytes(0), be_bytes((l.index + 1) as u64)), Some(l)),
    }
}

/// Whether a change is one that Raft makes: an appended entry lies after the
/// last purged log id and is ordered with the entries around it; a purge
/// does not go back before the last purged log id and precedes every entry
/// that it keeps. A truncation may come at any log id.
pub open spec fn log_op_conforms(logs: Map<Seq<u8>, LogId>, last_purged: Option<LogId>, op: LogOp) -> bool {
    match op {
        LogOp::Append(e) => {
            &&& last_purged matches Some(p) ==> p.index < e.index && log_id_le(p, e)
            &&& forall|k: Seq<u8>| #[trigger] logs.contains_key(k) && logs[k].index < e.index ==> log_id_le(logs[k], e)
            &&& forall|k: Seq<u8>| #[trigger] logs.contains_key(k) && e.index < logs[k].index ==> log_id_le(e, logs[k])
        },
        LogOp::Truncate(_) => true,
        LogOp::Purge(l) => {
            &&& l.index < u64::MAX
            &&& last_purged matches Some(p) ==> log_id_le(p, l)
            &&& forall|k: Seq<u8>| #[trigger] logs.contains_key(k) && l.index < logs[k].index ==> log_id_le(l, logs[k])
        },
    }
}

/// The store after the changes `ops`, in order.
pub open spec fn run_log_ops(logs: Map<Seq<u8>, LogId>, last_purged: Option<LogId>, ops: Seq<LogOp>) -> (
    Map<Seq<u8>, LogId>,
    Option<LogId>,
)
    decreases ops.len(),
{
    if ops.len() == 0 {
        (logs, last_purged)
    } else {
        let next = apply_log_op(logs, last_purged, ops[0]);
        run_log_ops(next.0, next.1, ops.drop_first())
    }
}

/// Whether each of the changes `ops` is one that Raft makes, in the store
/// that the changes before it left.
pub open spec fn log_ops_conform(logs: Map<Seq<u8>, LogId>, last_purged: Option<LogId>, ops: Seq<LogOp>) -> bool
    decreases ops.len(),
{
    ops.len() == 0 || {
        let next = apply_log_op(logs, last_purged, ops[0]);
        log_op_conforms(logs, last_purged, ops[0]) && log_ops_conform(next.0, next.1, ops.drop_first())
    }
}

/// Every change that Raft makes keeps the invariant, and so does every
/// sequence of them.
pub proof fn lemma_log_ops_keep_inv(logs: Map<Seq<u8>, LogId>, last_purged: Option<LogId>, ops: Seq<LogOp>)
    requires
        log_store_inv(logs, last_purged),
        log_ops_conform(logs, last_purged, ops),
    ensures
        ({
            let end = run_log_ops(logs, last_purged, ops);
            log_store_inv(end.0, end.1)
        }),
    decreases ops.len(),
{
    if ops.len() > 0 {
        let next = apply_log_op(logs, last_purged, ops[0]);
        match ops[0] {
            LogOp::Append(e) => lemma_append_keeps_inv(logs, last_purged, e),
            LogOp::Truncate(l) => lemma_truncate_keeps_inv(logs, last_purged, l),
            LogOp::Purge(l) => lemma_purge_keeps_inv(logs, last_purged, l),
        }
        lemma_log_ops_keep_inv(next.0, next.1, ops.drop_first());
    }
}

/// The log state orders its ids in a store that Raft's changes alone made
/// from an empty one: the last purged log id is at most the last log id,
/// and with no last log id nothing was purged. `last_entry` is the key of
/// the entry that the log state reads, if any.
pub proof fn lemma_log_state_after_ops(ops: Seq<LogOp>, last_entry: Option<Seq<u8>>)
    requires
        log_ops_conform(Map::<Seq<u8>, LogId>::empty(), None, ops),
        last_entry matches Some(k) ==> run_log_ops(Map::<Seq<u8>, LogId>::empty(), None, ops).0.contains_key(k),
    ensures
        ({
            let end = run_log_ops(Map::<Seq<u8>, LogId>::empty(), None, ops);
            let st = log_state_spec(
                match last_entry {
                    Some(k) => Some(end.0[k]),
                    None => None,
                },
                end.1,
            );
            &&& log_store_inv(end.0, end.1)
            &&& opt_log_id_le(st.last_purged_log_id, st.last_log_id)
            &&& st.last_log_id is None ==> st.last_purged_log_id is None
        }),
{
    let end = run_log_ops(Map::<Seq<u8>, LogId>::empty(), None, ops);
    lemma_empty_store_inv();
    lemma_log_ops_keep_inv(Map::<Seq<u8>, LogId>::empty(), None, ops);
    lemma_log_state_orders_ids(end.0, end.1, last_entry);
}

} // verus!
