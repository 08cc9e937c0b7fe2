use get_record_handler::accumulator::Version;
use get_record_handler::engine::{
    EngineError, FoundRecordAction, GetRecordEngine, GetRecordOutcome, LookupErrorKind,
};
use get_record_handler::quorum::{close_group_majority, expected_answers, Quorum, CLOSE_GROUP_SIZE};
use get_record_handler::record::{bytes_equal, copy_bytes, Record, Responder};

fn peer(n: u8) -> Responder {
    Responder::Peer(vec![n, n, n])
}

fn rec(value: &[u8]) -> Record {
    Record::new(b"key".to_vec(), value.to_vec())
}

fn engine() -> GetRecordEngine {
    GetRecordEngine::new(vec![0, 0, 0], CLOSE_GROUP_SIZE)
}

fn found(e: &mut GetRecordEngine, id: u64, value: &[u8], who: Responder) -> FoundRecordAction {
    e.accumulate_get_record_found(id, rec(value), &who, false)
}

fn split_versions(outcome: GetRecordOutcome) -> Vec<Version> {
    match outcome {
        GetRecordOutcome::SplitRecord(vs) => vs,
        other => panic!("expected a split record, got {:?}", other),
    }
}

#[test]
fn quorum_thresholds() {
    assert_eq!(close_group_majority(5), 3);
    assert_eq!(close_group_majority(4), 3);
    assert_eq!(close_group_majority(0), 1);
    assert_eq!(expected_answers(Quorum::ExactlyOne, 5), 1);
    assert_eq!(expected_answers(Quorum::Majority, 5), 3);
    assert_eq!(expected_answers(Quorum::All, 5), 5);
    assert_eq!(expected_answers(Quorum::AtLeastN(4), 5), 4);
    assert_eq!(expected_answers(Quorum::ExactlyOne, 20), 1);
}

#[test]
fn chunk_resolves_on_first_response() {
    for width in [1usize, 5, 20] {
        let mut e = GetRecordEngine::new(vec![0], width);
        e.register(7, Quorum::ExactlyOne, vec![]).unwrap();
        let r = e.accumulate_get_record_found(7, rec(b"chunk"), &peer(1), true);
        assert_eq!(r, FoundRecordAction::Complete(GetRecordOutcome::Success(rec(b"chunk"))));
        assert!(!e.is_pending(7));
    }
}

#[test]
fn chunk_fast_path_waits_for_expected_holders() {
    let mut e = engine();
    e.register(1, Quorum::ExactlyOne, vec![vec![9, 9, 9]]).unwrap();
    let r = e.try_early_completion_for_chunk(1, &rec(b"chunk"), true);
    assert_eq!(r, FoundRecordAction::Continue);
    assert!(e.is_pending(1));
    // ExactlyOne still resolves through the ordinary quorum count.
    let r = e.accumulate_get_record_found(1, rec(b"chunk"), &peer(9), true);
    assert_eq!(r, FoundRecordAction::Complete(GetRecordOutcome::Success(rec(b"chunk"))));
}

#[test]
fn chunk_fast_path_needs_exactly_one() {
    let mut e = engine();
    e.register(1, Quorum::Majority, vec![]).unwrap();
    assert_eq!(e.try_early_completion_for_chunk(1, &rec(b"chunk"), true), FoundRecordAction::Continue);
    assert_eq!(found(&mut e, 1, b"chunk", peer(1)), FoundRecordAction::Continue);
    assert!(e.is_pending(1));
}

#[test]
fn majority_resolves_on_third_distinct_responder() {
    let mut e = engine();
    e.register(3, Quorum::Majority, vec![]).unwrap();
    assert_eq!(found(&mut e, 3, b"same", peer(1)), FoundRecordAction::Continue);
    assert_eq!(found(&mut e, 3, b"same", peer(2)), FoundRecordAction::Continue);
    // A repeated responder does not count twice.
    assert_eq!(found(&mut e, 3, b"same", peer(2)), FoundRecordAction::Continue);
    assert_eq!(
        found(&mut e, 3, b"same", peer(3)),
        FoundRecordAction::Complete(GetRecordOutcome::Success(rec(b"same")))
    );
    assert!(!e.is_pending(3));
    // The remaining two responders arrive late and are absorbed.
    assert_eq!(found(&mut e, 3, b"same", peer(4)), FoundRecordAction::Ignore);
    assert_eq!(found(&mut e, 3, b"same", peer(5)), FoundRecordAction::Ignore);
}

#[test]
fn local_copy_counts_as_self() {
    let mut e = engine();
    e.register(4, Quorum::AtLeastN(2), vec![]).unwrap();
    assert_eq!(found(&mut e, 4, b"v", Responder::Local), FoundRecordAction::Continue);
    assert_eq!(found(&mut e, 4, b"v", Responder::Peer(vec![0, 0, 0])), FoundRecordAction::Continue);
    assert_eq!(
        found(&mut e, 4, b"v", peer(1)),
        FoundRecordAction::Complete(GetRecordOutcome::Success(rec(b"v")))
    );
}

#[test]
fn split_on_exhaustion_with_two_versions() {
    let mut e = engine();
    e.register(5, Quorum::AtLeastN(4), vec![]).unwrap();
    assert_eq!(found(&mut e, 5, b"A", peer(1)), FoundRecordAction::Continue);
    assert_eq!(found(&mut e, 5, b"B", peer(2)), FoundRecordAction::Continue);
    assert_eq!(found(&mut e, 5, b"A", peer(3)), FoundRecordAction::Continue);
    assert_eq!(found(&mut e, 5, b"B", peer(4)), FoundRecordAction::Continue);
    let vs = split_versions(e.handle_get_record_finished(5).unwrap());
    assert_eq!(vs.len(), 2);
    assert_eq!(vs[0].record, rec(b"A"));
    assert_eq!(vs[0].responders, vec![vec![1, 1, 1], vec![3, 3, 3]]);
    assert_eq!(vs[1].record, rec(b"B"));
    assert_eq!(vs[1].responders, vec![vec![2, 2, 2], vec![4, 4, 4]]);
    assert!(!e.is_pending(5));
}

#[test]
fn versions_are_keyed_by_content_hash() {
    let mut e = engine();
    e.register(6, Quorum::All, vec![]).unwrap();
    let other_key = Record::new(b"other".to_vec(), b"A".to_vec());
    assert_eq!(e.accumulate_get_record_found(6, other_key, &peer(1), false), FoundRecordAction::Continue);
    assert_eq!(found(&mut e, 6, b"A", peer(2)), FoundRecordAction::Continue);
    assert_eq!(found(&mut e, 6, b"C", peer(3)), FoundRecordAction::Continue);
    let vs = split_versions(e.handle_get_record_finished(6).unwrap());
    assert_eq!(vs.len(), 2);
    assert_eq!(vs[0].responders.len(), 2);
    assert_eq!(vs[0].content_hash, xor_name::XorName::from_content(b"A").0.to_vec());
    assert_ne!(vs[0].content_hash, b"A".to_vec());
    assert_eq!(vs[1].content_hash, xor_name::XorName::from_content(b"C").0.to_vec());
}

#[test]
fn split_when_a_version_reaches_quorum_after_disagreement() {
    let mut e = engine();
    e.register(8, Quorum::AtLeastN(2), vec![]).unwrap();
    assert_eq!(found(&mut e, 8, b"A", peer(1)), FoundRecordAction::Continue);
    assert_eq!(found(&mut e, 8, b"B", peer(2)), FoundRecordAction::Continue);
    let r = found(&mut e, 8, b"A", peer(3));
    match r {
        FoundRecordAction::Complete(o) => {
            let vs = split_versions(o);
            assert_eq!(vs.len(), 2);
            assert_eq!(vs[0].responders.len(), 2);
            assert_eq!(vs[1].responders.len(), 1);
        }
        other => panic!("expected completion, got {:?}", other),
    }
    assert!(!e.is_pending(8));
}

#[test]
fn not_found_when_nothing_answered() {
    let mut e = engine();
    e.register(9, Quorum::Majority, vec![]).unwrap();
    assert_eq!(e.handle_get_record_finished(9), Ok(GetRecordOutcome::RecordNotFound));
    assert!(!e.is_pending(9));
}

#[test]
fn not_enough_copies_with_one_version() {
    let mut e = engine();
    e.register(10, Quorum::All, vec![]).unwrap();
    assert_eq!(found(&mut e, 10, b"v", peer(1)), FoundRecordAction::Continue);
    assert_eq!(found(&mut e, 10, b"v", peer(2)), FoundRecordAction::Continue);
    assert_eq!(
        e.handle_get_record_finished(10),
        Ok(GetRecordOutcome::RecordNotEnoughCopies(rec(b"v")))
    );
}

#[test]
fn timeout_salvages_a_complete_single_version() {
    let mut e = GetRecordEngine::new(vec![0], 5);
    e.register(11, Quorum::Majority, vec![]).unwrap();
    assert_eq!(found(&mut e, 11, b"v", peer(1)), FoundRecordAction::Continue);
    assert_eq!(found(&mut e, 11, b"v", peer(2)), FoundRecordAction::Continue);
    // The close group shrinks: the recorded responders now meet the threshold.
    e.close_group_size = 3;
    assert_eq!(
        e.handle_get_record_error(11, LookupErrorKind::Timeout),
        Ok(GetRecordOutcome::Success(rec(b"v")))
    );
    assert!(!e.is_pending(11));
}

#[test]
fn timeout_without_enough_responders() {
    let mut e = engine();
    e.register(12, Quorum::Majority, vec![]).unwrap();
    assert_eq!(found(&mut e, 12, b"v", peer(1)), FoundRecordAction::Continue);
    assert_eq!(
        e.handle_get_record_error(12, LookupErrorKind::Timeout),
        Ok(GetRecordOutcome::QueryTimeout)
    );
}

#[test]
fn timeout_with_nothing_answered() {
    let mut e = engine();
    e.register(13, Quorum::ExactlyOne, vec![]).unwrap();
    assert_eq!(
        e.handle_get_record_error(13, LookupErrorKind::Timeout),
        Ok(GetRecordOutcome::QueryTimeout)
    );
}

#[test]
fn timeout_with_split_is_never_salvaged() {
    let mut e = engine();
    e.register(14, Quorum::AtLeastN(2), vec![]).unwrap();
    assert_eq!(found(&mut e, 14, b"A", peer(1)), FoundRecordAction::Continue);
    assert_eq!(found(&mut e, 14, b"B", peer(2)), FoundRecordAction::Continue);
    e.close_group_size = 1;
    assert_eq!(
        e.handle_get_record_error(14, LookupErrorKind::Timeout),
        Ok(GetRecordOutcome::QueryTimeout)
    );
}

#[test]
fn lookup_errors_give_not_found() {
    let mut e = engine();
    e.register(15, Quorum::Majority, vec![]).unwrap();
    e.register(16, Quorum::Majority, vec![]).unwrap();
    assert_eq!(found(&mut e, 15, b"v", peer(1)), FoundRecordAction::Continue);
    assert_eq!(
        e.handle_get_record_error(15, LookupErrorKind::NotFound),
        Ok(GetRecordOutcome::RecordNotFound)
    );
    assert_eq!(
        e.handle_get_record_error(16, LookupErrorKind::QuorumFailed),
        Ok(GetRecordOutcome::RecordNotFound)
    );
}

#[test]
fn stale_found_record_is_absorbed() {
    let mut e = engine();
    assert_eq!(found(&mut e, 17, b"v", peer(1)), FoundRecordAction::Ignore);
    assert_eq!(e.try_early_completion_for_chunk(17, &rec(b"v"), true), FoundRecordAction::Ignore);
    assert!(!e.is_pending(17));
}

#[test]
fn delivery_happens_once() {
    let mut e = engine();
    e.register(18, Quorum::ExactlyOne, vec![]).unwrap();
    assert_eq!(
        found(&mut e, 18, b"v", peer(1)),
        FoundRecordAction::Complete(GetRecordOutcome::Success(rec(b"v")))
    );
    assert_eq!(found(&mut e, 18, b"v", peer(2)), FoundRecordAction::Ignore);
    assert_eq!(e.handle_get_record_finished(18), Err(EngineError::UnknownQuery(18)));
    assert_eq!(
        e.handle_get_record_error(18, LookupErrorKind::Timeout),
        Err(EngineError::UnknownQuery(18))
    );
    // The identifier can be reused once resolved.
    e.register(18, Quorum::ExactlyOne, vec![]).unwrap();
    assert!(e.is_pending(18));
}

#[test]
fn register_twice_is_refused() {
    let mut e = engine();
    e.register(19, Quorum::All, vec![]).unwrap();
    assert_eq!(e.register(19, Quorum::ExactlyOne, vec![]), Err(EngineError::AlreadyRegistered(19)));
    // The first registration stands.
    assert_eq!(found(&mut e, 19, b"v", peer(1)), FoundRecordAction::Continue);
}

#[test]
fn other_queries_are_untouched() {
    let mut e = engine();
    e.register(20, Quorum::Majority, vec![]).unwrap();
    e.register(21, Quorum::Majority, vec![]).unwrap();
    assert_eq!(found(&mut e, 20, b"v", peer(1)), FoundRecordAction::Continue);
    assert_eq!(e.handle_get_record_finished(21), Ok(GetRecordOutcome::RecordNotFound));
    assert!(e.is_pending(20));
    assert_eq!(
        e.handle_get_record_finished(20),
        Ok(GetRecordOutcome::RecordNotEnoughCopies(rec(b"v")))
    );
}

#[test]
fn byte_helpers() {
    assert!(bytes_equal(&vec![1, 2, 3], &vec![1, 2, 3]));
    assert!(!bytes_equal(&vec![1, 2, 3], &vec![1, 2]));
    assert!(!bytes_equal(&vec![1, 2, 3], &vec![1, 2, 4]));
    assert!(bytes_equal(&vec![], &vec![]));
    assert_eq!(copy_bytes(&vec![4, 5]), vec![4, 5]);
    assert_eq!(rec(b"x").duplicate(), rec(b"x"));
    assert_eq!(Responder::Local.identity(&vec![7]), vec![7]);
    assert_eq!(peer(2).identity(&vec![7]), vec![2, 2, 2]);
}
