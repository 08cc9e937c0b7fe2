use vstd::prelude::*;

use crate::engine::{
    early_step, error_step, finished_step, found_step, EngineError, FoundView, LookupErrorKind,
    OutcomeView, PendingView,
};
use crate::quorum::{threshold, Quorum};
use crate::record::RecordView;

verus! {

/// A fetch is answered exactly once. A found-record event for a fetch in flight
/// either keeps it in flight without an answer or removes it and hands over one
/// answer; an exhaustion or lookup-error event for a fetch in flight always removes
/// it with an answer; any event for a fetch that is not in flight hands over
/// nothing and changes nothing. No event touches another fetch.
pub proof fn lemma_delivery_exactly_once(
    reg: Map<u64, PendingView>,
    width: nat,
    query_id: u64,
    record: RecordView,
    peer: Seq<u8>,
    is_chunk: bool,
    hash: Seq<u8>,
    kind: LookupErrorKind,
)
    ensures
        ({
            let (after, action) = found_step(reg, width, query_id, record, peer, is_chunk, hash);
            &&& (action is Complete <==> reg.contains_key(query_id) && !after.contains_key(
                query_id,
            ))
            &&& (action is Continue ==> reg.contains_key(query_id) && after.contains_key(query_id))
            &&& (!reg.contains_key(query_id) ==> action is Ignore && after == reg)
            &&& after.remove(query_id) == reg.remove(query_id)
        }),
        ({
            let (after, res) = finished_step(reg, query_id);
            &&& (reg.contains_key(query_id) ==> res is Ok && after == reg.remove(query_id))
            &&& (!reg.contains_key(query_id) ==> res is Err && after == reg)
        }),
        ({
            let (after, res) = error_step(reg, width, query_id, kind);
            &&& (reg.contains_key(query_id) ==> res is Ok && after == reg.remove(query_id))
            &&& (!reg.contains_key(query_id) ==> res is Err && after == reg)
        }),
{
    let (after, action) = found_step(reg, width, query_id, record, peer, is_chunk, hash);
    if reg.contains_key(query_id) {
        assert(after.remove(query_id) =~= reg.remove(query_id));
    }
}

/// When the holders are exhausted and more than one version was seen, the answer
/// is a split record that carries every version with all of its responders.
pub proof fn lemma_exhausted_split(reg: Map<u64, PendingView>, query_id: u64)
    requires
        reg.contains_key(query_id),
        reg[query_id].versions.len() > 1,
    ensures
        finished_step(reg, query_id) == (
            reg.remove(query_id),
            Ok::<OutcomeView, EngineError>(OutcomeView::SplitRecord(reg[query_id].versions)),
        ),
{
}

/// A self-verifying chunk wanted once, from no particular holders, is answered by
/// the first response whatever the width of the close group.
pub proof fn lemma_chunk_first_response(
    reg: Map<u64, PendingView>,
    width: nat,
    query_id: u64,
    record: RecordView,
    peer: Seq<u8>,
    hash: Seq<u8>,
)
    requires
        reg.contains_key(query_id),
        reg[query_id].quorum == Quorum::ExactlyOne,
        reg[query_id].expected_holders.len() == 0,
    ensures
        found_step(reg, width, query_id, record, peer, true, hash) == (
            reg.remove(query_id),
            FoundView::Complete(OutcomeView::Success(record)),
        ),
        early_step(reg, query_id, record, true) == (
            reg.remove(query_id),
            FoundView::Complete(OutcomeView::Success(record)),
        ),
{
}

/// A timeout with a single version that already has enough responders is answered
/// with that version's record.
pub proof fn lemma_timeout_salvage(reg: Map<u64, PendingView>, width: nat, query_id: u64)
    requires
        reg.contains_key(query_id),
        reg[query_id].versions.len() == 1,
        reg[query_id].versions[0].responders.len() >= threshold(reg[query_id].quorum, width),
    ensures
        error_step(reg, width, query_id, LookupErrorKind::Timeout) == (
            reg.remove(query_id),
            Ok::<OutcomeView, EngineError>(OutcomeView::Success(reg[query_id].versions[0].record)),
        ),
{
}

/// A timeout after disagreeing versions is answered with a timeout, never with a
/// salvaged record.
pub proof fn lemma_timeout_split(reg: Map<u64, PendingView>, width: nat, query_id: u64)
    requires
        reg.contains_key(query_id),
        reg[query_id].versions.len() > 1,
    ensures
        error_step(reg, width, query_id, LookupErrorKind::Timeout) == (
            reg.remove(query_id),
            Ok::<OutcomeView, EngineError>(OutcomeView::QueryTimeout),
        ),
{
}

/// A found-record event for a fetch that is no longer in flight is absorbed: no
/// error, no answer, no change.
pub proof fn lemma_stale_found_record(
    reg: Map<u64, PendingView>,
    width: nat,
    query_id: u64,
    record: RecordView,
    peer: Seq<u8>,
    is_chunk: bool,
    hash: Seq<u8>,
)
    requires
        !reg.contains_key(query_id),
    ensures
        found_step(reg, width, query_id, record, peer, is_chunk, hash) == (reg, FoundView::Ignore),
        early_step(reg, query_id, record, is_chunk) == (reg, FoundView::Ignore),
{
}

} // verus!
