use vstd::prelude::*;

use std::collections::HashMap;

use crate::accumulator::{
    accumulate, peers_view, record_response, responded_count, versions_view, versions_wf,
    Version, VersionView,
};
use crate::quorum::{expected_answers, threshold, Quorum};
use crate::record::{
    bytes_equal, content_hash, content_hash_of, copy_bytes, responder_identity, Record, RecordView,
    Responder,
};

verus! {

broadcast use vstd::std_specs::hash::group_hash_axioms;

/// What the engine holds for one fetch that is still in flight.
#[derive(Debug)]
pub struct PendingQuery {
    pub versions: Vec<Version>,
    pub quorum: Quorum,
    pub expected_holders: Vec<Vec<u8>>,
}

pub struct PendingView {
    pub versions: Seq<VersionView>,
    pub quorum: Quorum,
    pub expected_holders: Seq<Seq<u8>>,
}

impl View for PendingQuery {
    type V = PendingView;

    open spec fn view(&self) -> PendingView {
        PendingView {
            versions: versions_view(self.versions@),
            quorum: self.quorum,
            expected_holders: peers_view(self.expected_holders@),
        }
    }
}

/// The answer handed once to the caller of a fetch.
#[derive(Clone, Debug, PartialEq, Eq)]
pub enum GetRecordOutcome {
    Success(Record),
    RecordNotEnoughCopies(Record),
    SplitRecord(Vec<Version>),
    RecordNotFound,
    QueryTimeout,
}

pub enum OutcomeView {
    Success(RecordView),
    RecordNotEnoughCopies(RecordView),
    SplitRecord(Seq<VersionView>),
    RecordNotFound,
    QueryTimeout,
}

impl View for GetRecordOutcome {
    type V = OutcomeView;

    open spec fn view(&self) -> OutcomeView {
        match self {
            GetRecordOutcome::Success(r) => OutcomeView::Success(r@),
            GetRecordOutcome::RecordNotEnoughCopies(r) => OutcomeView::RecordNotEnoughCopies(r@),
            GetRecordOutcome::SplitRecord(vs) => OutcomeView::SplitRecord(versions_view(vs@)),
            GetRecordOutcome::RecordNotFound => OutcomeView::RecordNotFound,
            GetRecordOutcome::QueryTimeout => OutcomeView::QueryTimeout,
        }
    }
}

/// What a found-record event leads to.
/// `Complete` hands the outcome to the caller and asks the lookup to stop early.
#[derive(Clone, Debug, PartialEq, Eq)]
pub enum FoundRecordAction {
    Ignore,
    Continue,
    Complete(GetRecordOutcome),
}

pub enum FoundView {
    Ignore,
    Continue,
    Complete(OutcomeView),
}

impl View for FoundRecordAction {
    type V = FoundView;

    open spec fn view(&self) -> FoundView {
        match self {
            FoundRecordAction::Ignore => FoundView::Ignore,
            FoundRecordAction::Continue => FoundView::Continue,
            FoundRecordAction::Complete(o) => FoundView::Complete(o@),
        }
    }
}

/// The terminal conditions that the lookup layer reports as errors.
#[derive(Clone, Copy, Debug, PartialEq, Eq, Structural)]
pub enum LookupErrorKind {
    NotFound,
    QuorumFailed,
    Timeout,
}

/// Inconsistencies between the events and the registry.
#[derive(Clone, Copy, Debug, PartialEq, Eq, Structural)]
pub enum EngineError {
    UnknownQuery(u64),
    AlreadyRegistered(u64),
}

pub open spec fn result_view(r: Result<GetRecordOutcome, EngineError>) -> Result<OutcomeView, EngineError> {
    match r {
        Ok(o) => Ok(o@),
        Err(e) => Err(e),
    }
}

pub open spec fn registry_view(m: Map<u64, PendingQuery>) -> Map<u64, PendingView> {
    m.map_values(|p: PendingQuery| p@)
}

/// Every pending query keeps its versions well formed.
pub open spec fn registry_wf(reg: Map<u64, PendingView>) -> bool {
    forall|id: u64| #[trigger] reg.contains_key(id) ==> versions_wf(reg[id].versions)
}

/// The expected holders once `peer` has answered.
pub open spec fn holders_without(holders: Seq<Seq<u8>>, peer: Seq<u8>) -> Seq<Seq<u8>> {
    holders.filter(|h: Seq<u8>| h != peer)
}

/// A self-verifying chunk wanted once, from no particular holders, needs one answer.
pub open spec fn early_exit_applies(p: PendingView, is_chunk: bool) -> bool {
    p.expected_holders.len() == 0 && is_chunk && p.quorum == Quorum::ExactlyOne
}

/// The fast path alone: an unknown query is ignored, one it applies to completes.
pub open spec fn early_step(
    reg: Map<u64, PendingView>,
    query_id: u64,
    record: RecordView,
    is_chunk: bool,
) -> (Map<u64, PendingView>, FoundView) {
    if !reg.contains_key(query_id) {
        (reg, FoundView::Ignore)
    } else if early_exit_applies(reg[query_id], is_chunk) {
        (reg.remove(query_id), FoundView::Complete(OutcomeView::Success(record)))
    } else {
        (reg, FoundView::Continue)
    }
}

/// A found-record event from `peer`, whose value hashes to `hash`.
pub open spec fn found_step(
    reg: Map<u64, PendingView>,
    width: nat,
    query_id: u64,
    record: RecordView,
    peer: Seq<u8>,
    is_chunk: bool,
    hash: Seq<u8>,
) -> (Map<u64, PendingView>, FoundView) {
    if !reg.contains_key(query_id) {
        (reg, FoundView::Ignore)
    } else {
        let p = reg[query_id];
        if early_exit_applies(p, is_chunk) {
            (reg.remove(query_id), FoundView::Complete(OutcomeView::Success(record)))
        } else {
            let vs = accumulate(p.versions, hash, record, peer);
            if responded_count(vs, hash) >= threshold(p.quorum, width) {
                (
                    reg.remove(query_id),
                    FoundView::Complete(
                        if vs.len() == 1 {
                            OutcomeView::Success(record)
                        } else {
                            OutcomeView::SplitRecord(vs)
                        },
                    ),
                )
            } else {
                (
                    reg.insert(
                        query_id,
                        PendingView {
                            versions: vs,
                            quorum: p.quorum,
                            expected_holders: holders_without(p.expected_holders, peer),
                        },
                    ),
                    FoundView::Continue,
                )
            }
        }
    }
}

/// The outcome once all reachable holders have answered.
pub open spec fn finished_outcome(vs: Seq<VersionView>) -> OutcomeView {
    if vs.len() == 0 {
        OutcomeView::RecordNotFound
    } else if vs.len() == 1 {
        OutcomeView::RecordNotEnoughCopies(vs[0].record)
    } else {
        OutcomeView::SplitRecord(vs)
    }
}

pub open spec fn finished_step(reg: Map<u64, PendingView>, query_id: u64) -> (
    Map<u64, PendingView>,
    Result<OutcomeView, EngineError>,
) {
    if !reg.contains_key(query_id) {
        (reg, Err(EngineError::UnknownQuery(query_id)))
    } else {
        (reg.remove(query_id), Ok(finished_outcome(reg[query_id].versions)))
    }
}

/// The outcome of a lookup error; a timeout salvages a single version that
/// already has enough responders.
pub open spec fn error_outcome(kind: LookupErrorKind, p: PendingView, width: nat) -> OutcomeView {
    match kind {
        LookupErrorKind::Timeout => {
            if p.versions.len() == 1 && p.versions[0].responders.len() >= threshold(p.quorum, width) {
                OutcomeView::Success(p.versions[0].record)
            } else {
                OutcomeView::QueryTimeout
            }
        },
        _ => OutcomeView::RecordNotFound,
    }
}

pub open spec fn error_step(
    reg: Map<u64, PendingView>,
    width: nat,
    query_id: u64,
    kind: LookupErrorKind,
) -> (Map<u64, PendingView>, Result<OutcomeView, EngineError>) {
    if !reg.contains_key(query_id) {
        (reg, Err(EngineError::UnknownQuery(query_id)))
    } else {
        (reg.remove(query_id), Ok(error_outcome(kind, reg[query_id], width)))
    }
}

proof fn lemma_registry_wf_remove(reg: Map<u64, PendingView>, query_id: u64)
    requires
        registry_wf(reg),
    ensures
        registry_wf(reg.remove(query_id)),
{
    assert forall|k: u64| #[trigger] reg.remove(query_id).contains_key(k) implies versions_wf(
        reg.remove(query_id)[k].versions,
    ) by {
        assert(reg.contains_key(k));
    }
}

/// The expected holders without `peer`.
fn holders_without_peer(holders: &Vec<Vec<u8>>, peer: &Vec<u8>) -> (r: Vec<Vec<u8>>)
    ensures
        peers_view(r@) == holders_without(peers_view(holders@), peer@),
{
    let ghost hs = peers_view(holders@);
    let mut r: Vec<Vec<u8>> = Vec::new();
    let mut i: usize = 0;
    while i < holders.len()
        invariant
            i <= holders.len(),
            hs == peers_view(holders@),
            peers_view(r@) == holders_without(hs.subrange(0, i as int), peer@),
        decreases holders.len() - i,
    {
        let ghost before = peers_view(r@);
        proof {
            reveal(Seq::filter);
            assert(hs.subrange(0, i + 1).drop_last() =~= hs.subrange(0, i as int));
            assert(hs.subrange(0, i + 1).last() == holders@[i as int]@);
        }
        if !bytes_equal(&holders[i], peer) {
            r.push(copy_bytes(&holders[i]));
            assert(peers_view(r@) =~= before.push(holders@[i as int]@));
        }
        i = i + 1;
    }
    assert(hs.subrange(0, holders.len() as int) =~= hs);
    r
}

/// The registry of fetches in flight, owned by the loop that handles the lookup
/// layer's events.
pub struct GetRecordEngine {
    pub self_peer: Vec<u8>,
    pub close_group_size: usize,
    pub pending: HashMap<u64, PendingQuery>,
}

impl GetRecordEngine {
    pub open spec fn registry(&self) -> Map<u64, PendingView> {
        registry_view(self.pending@)
    }

    pub open spec fn wf(&self) -> bool {
        registry_wf(self.registry())
    }

    pub open spec fn width(&self) -> nat {
        self.close_group_size as nat
    }

    /// An engine for a node with identity `self_peer` in close groups of
    /// `close_group_size` peers, with no fetch in flight.
    pub fn new(self_peer: Vec<u8>, close_group_size: usize) -> (r: GetRecordEngine)
        ensures
            r.wf(),
            r.self_peer@ == self_peer@,
            r.close_group_size == close_group_size,
            r.registry() == Map::<u64, PendingView>::empty(),
    {
        let r = GetRecordEngine { self_peer, close_group_size, pending: HashMap::new() };
        assert(r.registry() =~= Map::<u64, PendingView>::empty());
        r
    }

    /// Whether a fetch is in flight under `query_id`.
    pub fn is_pending(&self, query_id: u64) -> (r: bool)
        ensures
            r == self.registry().contains_key(query_id),
    {
        self.pending.contains_key(&query_id)
    }

    /// Starts tracking a fetch under `query_id`.
    pub fn register(&mut self, query_id: u64, quorum: Quorum, expected_holders: Vec<Vec<u8>>) -> (r:
        Result<(), EngineError>)
        requires
            old(self).wf(),
        ensures
            final(self).wf(),
            final(self).self_peer == old(self).self_peer,
            final(self).close_group_size == old(self).close_group_size,
            old(self).registry().contains_key(query_id) ==> r == Err::<(), EngineError>(
                EngineError::AlreadyRegistered(query_id),
            ) && final(self).registry() == old(self).registry(),
            !old(self).registry().contains_key(query_id) ==> r is Ok && final(self).registry()
                == old(self).registry().insert(
                query_id,
                PendingView {
                    versions: Seq::empty(),
                    quorum: quorum,
                    expected_holders: peers_view(expected_holders@),
                },
            ),
    {
        if self.pending.contains_key(&query_id) {
            return Err(EngineError::AlreadyRegistered(query_id));
        }
        let p = PendingQuery { versions: Vec::new(), quorum, expected_holders };
        let ghost old_reg = self.registry();
        self.pending.insert(query_id, p);
        proof {
            assert(versions_view(p.versions@) =~= Seq::empty());
            assert(self.registry() =~= old_reg.insert(query_id, p@));
            assert(versions_wf(Seq::<VersionView>::empty()));
        }
        Ok(())
    }

    /// The fast path for a self-verifying chunk: completes a fetch wanted once,
    /// from no particular holders, on its first answer. An event for a query that
    /// is not in flight is absorbed.
    pub fn try_early_completion_for_chunk(&mut self, query_id: u64, record: &Record, is_chunk: bool) -> (r:
        FoundRecordAction)
        requires
            old(self).wf(),
        ensures
            final(self).wf(),
            final(self).self_peer == old(self).self_peer,
            final(self).close_group_size == old(self).close_group_size,
            (final(self).registry(), r@) == early_step(old(self).registry(), query_id, record@, is_chunk),
    {
        let ghost old_reg = self.registry();
        match self.pending.remove(&query_id) {
            None => {
                assert(self.registry() =~= old_reg);
                FoundRecordAction::Ignore
            },
            Some(p) => {
                if p.expected_holders.len() == 0 && is_chunk && p.quorum == Quorum::ExactlyOne {
                    assert(self.registry() =~= old_reg.remove(query_id));
                proof {
                    lemma_registry_wf_remove(old_reg, query_id);
                }
                    FoundRecordAction::Complete(GetRecordOutcome::Success(record.duplicate()))
                } else {
                    self.pending.insert(query_id, p);
                    assert(self.registry() =~= old_reg);
                    FoundRecordAction::Continue
                }
            },
        }
    }

    /// A found-record event whose value hashes to `hash`: the fast path first,
    /// then the answer joins its version, and the fetch completes once that
    /// version has as many distinct responders as the quorum expects.
    pub fn accumulate_hashed_record(
        &mut self,
        query_id: u64,
        record: Record,
        responder: &Responder,
        is_chunk: bool,
        hash: Vec<u8>,
    ) -> (r: FoundRecordAction)
        requires
            old(self).wf(),
        ensures
            final(self).wf(),
            final(self).self_peer == old(self).self_peer,
            final(self).close_group_size == old(self).close_group_size,
            (final(self).registry(), r@) == found_step(
                old(self).registry(),
                old(self).width(),
                query_id,
                record@,
                responder_identity(*responder, old(self).self_peer@),
                is_chunk,
                hash@,
            ),
    {
        let ghost old_reg = self.registry();
        let early = self.try_early_completion_for_chunk(query_id, &record, is_chunk);
        match early {
            FoundRecordAction::Continue => {},
            _ => {
                return early;
            },
        }
        let peer = responder.identity(&self.self_peer);
        match self.pending.remove(&query_id) {
            None => FoundRecordAction::Ignore,
            Some(p) => {
                let mut p = p;
                let ghost pv = p@;
                assert(old_reg[query_id] == pv);
                p.expected_holders = holders_without_peer(&p.expected_holders, &peer);
                let stored = record.duplicate();
                let count = record_response(&mut p.versions, hash, stored, peer);
                let expected = expected_answers(p.quorum, self.close_group_size);
                if count >= expected {
                    assert(self.registry() =~= old_reg.remove(query_id));
                proof {
                    lemma_registry_wf_remove(old_reg, query_id);
                }
                    if p.versions.len() == 1 {
                        FoundRecordAction::Complete(GetRecordOutcome::Success(record))
                    } else {
                        FoundRecordAction::Complete(GetRecordOutcome::SplitRecord(p.versions))
                    }
                } else {
                    let ghost np = p@;
                    self.pending.insert(query_id, p);
                    assert(self.registry() =~= old_reg.insert(query_id, np));
                    FoundRecordAction::Continue
                }
            },
        }
    }

    /// A found-record event: the value's content hash decides its version.
    pub fn accumulate_get_record_found(
        &mut self,
        query_id: u64,
        record: Record,
        responder: &Responder,
        is_chunk: bool,
    ) -> (r: FoundRecordAction)
        requires
            old(self).wf(),
        ensures
            final(self).wf(),
            final(self).self_peer == old(self).self_peer,
            final(self).close_group_size == old(self).close_group_size,
            (final(self).registry(), r@) == found_step(
                old(self).registry(),
                old(self).width(),
                query_id,
                record@,
                responder_identity(*responder, old(self).self_peer@),
                is_chunk,
                content_hash_of(record.value@),
            ),
    {
        let hash = content_hash(&record.value);
        self.accumulate_hashed_record(query_id, record, responder, is_chunk, hash)
    }

    /// The lookup has no more holders to ask: the fetch ends with what it has.
    pub fn handle_get_record_finished(&mut self, query_id: u64) -> (r: Result<GetRecordOutcome, EngineError>)
        requires
            old(self).wf(),
        ensures
            final(self).wf(),
            final(self).self_peer == old(self).self_peer,
            final(self).close_group_size == old(self).close_group_size,
            (final(self).registry(), result_view(r)) == finished_step(old(self).registry(), query_id),
    {
        let ghost old_reg = self.registry();
        match self.pending.remove(&query_id) {
            None => {
                assert(self.registry() =~= old_reg);
                Err(EngineError::UnknownQuery(query_id))
            },
            Some(p) => {
                assert(self.registry() =~= old_reg.remove(query_id));
                proof {
                    lemma_registry_wf_remove(old_reg, query_id);
                }
                let ghost vs = p@.versions;
                let n = p.versions.len();
                if n == 0 {
                    Ok(GetRecordOutcome::RecordNotFound)
                } else if n == 1 {
                    let mut versions = p.versions;
                    match versions.pop() {
                        Some(v) => {
                            assert(v@ == vs[0]);
                            Ok(GetRecordOutcome::RecordNotEnoughCopies(v.record))
                        },
                        None => Ok(GetRecordOutcome::RecordNotFound),
                    }
                } else {
                    Ok(GetRecordOutcome::SplitRecord(p.versions))
                }
            },
        }
    }

    /// The lookup failed: a timeout salvages a single version that already has
    /// enough responders; everything else ends the fetch unanswered.
    pub fn handle_get_record_error(&mut self, query_id: u64, kind: LookupErrorKind) -> (r: Result<
        GetRecordOutcome,
        EngineError,
    >)
        requires
            old(self).wf(),
        ensures
            final(self).wf(),
            final(self).self_peer == old(self).self_peer,
            final(self).close_group_size == old(self).close_group_size,
            (final(self).registry(), result_view(r)) == error_step(
                old(self).registry(),
                old(self).width(),
                query_id,
                kind,
            ),
    {
        let ghost old_reg = self.registry();
        match self.pending.remove(&query_id) {
            None => {
                assert(self.registry() =~= old_reg);
                Err(EngineError::UnknownQuery(query_id))
            },
            Some(p) => {
                assert(self.registry() =~= old_reg.remove(query_id));
                proof {
                    lemma_registry_wf_remove(old_reg, query_id);
                }
                let ghost pv = p@;
                match kind {
                    LookupErrorKind::Timeout => {
                        let required = expected_answers(p.quorum, self.close_group_size);
                        if p.versions.len() != 1 {
                            return Ok(GetRecordOutcome::QueryTimeout);
                        }
                        let mut versions = p.versions;
                        match versions.pop() {
                            Some(v) => {
                                assert(v@ == pv.versions[0]);
                                assert(peers_view(v.responders@).len() == v.responders@.len());
                                if v.responders.len() >= required {
                                    Ok(GetRecordOutcome::Success(v.record))
                                } else {
                                    Ok(GetRecordOutcome::QueryTimeout)
                                }
                            },
                            None => Ok(GetRecordOutcome::QueryTimeout),
                        }
                    },
                    _ => Ok(GetRecordOutcome::RecordNotFound),
                }
            },
        }
    }
}

} // verus!
