use relay_quorum::error::{ConcurrencyError, PublishError, QueryError};
use relay_quorum::inflight::InflightPublishRequests;
use relay_quorum::record::{PublicKey, SignedPacket, Timestamp};

const TIMEOUT: PublishError = PublishError::Query(QueryError::Timeout);
const UNCLASSIFIED: PublishError = PublishError::Query(QueryError::Unclassified);
const NOT_MOST_RECENT: PublishError = PublishError::Concurrency(ConcurrencyError::NotMostRecent);
const CAS_FAILED: PublishError = PublishError::Concurrency(ConcurrencyError::CasFailed);
const CONFLICT_RISK: PublishError = PublishError::Concurrency(ConcurrencyError::ConflictRisk);

fn key(text: &str) -> PublicKey {
    PublicKey::new(text.to_string()).unwrap()
}

fn packet(key_text: &str, signature: u8, micros: u64) -> SignedPacket {
    SignedPacket::new(key(key_text), vec![signature; 64], Timestamp::new(micros), vec![signature])
}

fn started(relays: usize, key_text: &str) -> InflightPublishRequests {
    let mut registry = InflightPublishRequests::new(relays);
    assert_eq!(registry.start_request(&key(key_text), &packet(key_text, 1, 100), None), Ok(()));
    registry
}

const KINDS: [PublishError; 5] = [TIMEOUT, UNCLASSIFIED, NOT_MOST_RECENT, CAS_FAILED, CONFLICT_RISK];

/// The successes and the errors counted for a key, the errors as pairs of
/// kind and count in the order of `KINDS`, without the kinds never reported.
fn votes(registry: &InflightPublishRequests, key: &PublicKey) -> Option<(usize, Vec<(PublishError, usize)>)> {
    let successes = registry.success_count(key)?;
    let errors = KINDS
        .iter()
        .map(|kind| (*kind, registry.error_count(key, *kind).unwrap()))
        .filter(|(_, count)| *count > 0)
        .collect();
    Some((successes, errors))
}

fn entry(error: PublishError, count: usize) -> (PublishError, usize) {
    (error, count)
}

#[test]
fn majority_is_half_rounded_down_plus_one() {
    let expected = [(0, 1), (1, 1), (2, 2), (3, 2), (4, 3), (5, 3), (6, 4), (7, 4), (100, 51), (101, 51)];
    for (relays, majority) in expected {
        let registry = InflightPublishRequests::new(relays);
        assert_eq!(registry.relays_count(), relays);
        assert_eq!(registry.majority(), majority);
    }
    assert_eq!(InflightPublishRequests::new(usize::MAX).majority(), usize::MAX / 2 + 1);
}

#[test]
fn new_registry_is_empty() {
    let registry = InflightPublishRequests::new(3);
    assert!(registry.is_empty());
    assert!(!registry.contains(&key("alice")));
    assert_eq!(registry.success_count(&key("alice")), None);
    assert_eq!(registry.error_count(&key("alice"), TIMEOUT), None);
    assert!(registry.admitted(&key("alice")).is_none());
}

#[test]
fn first_publish_for_a_key_is_admitted_with_no_votes() {
    let mut registry = InflightPublishRequests::new(3);
    assert_eq!(registry.start_request(&key("alice"), &packet("alice", 1, 100), None), Ok(()));
    assert!(!registry.is_empty());
    assert!(registry.contains(&key("alice")));
    assert!(!registry.contains(&key("bob")));
    assert_eq!(votes(&registry, &key("alice")), Some((0, vec![])));
    let admitted = registry.admitted(&key("alice")).unwrap();
    assert_eq!(admitted.public_key(), key("alice"));
    assert_eq!(admitted.timestamp(), Timestamp::new(100));
    assert_eq!(admitted.to_relay_payload(), vec![1]);
    assert!(registry.admitted(&key("bob")).is_none());
}

#[test]
fn first_publish_is_admitted_whatever_the_cas() {
    let mut registry = InflightPublishRequests::new(3);
    let cas = Some(Timestamp::new(5));
    assert_eq!(registry.start_request(&key("alice"), &packet("alice", 1, 100), cas), Ok(()));
    assert_eq!(votes(&registry, &key("alice")), Some((0, vec![])));
}

#[test]
fn same_signature_joins_the_write_in_flight() {
    let mut registry = started(5, "alice");
    assert_eq!(registry.add_result(&key("alice"), Ok(())), Ok(false));
    assert_eq!(registry.add_result(&key("alice"), Err(TIMEOUT)), Ok(false));
    let before = votes(&registry, &key("alice"));
    assert_eq!(before, Some((1, vec![entry(TIMEOUT, 1)])));

    assert_eq!(registry.start_request(&key("alice"), &packet("alice", 1, 100), None), Ok(()));
    assert_eq!(votes(&registry, &key("alice")), before);
    // The signature decides, not the timestamp or the token.
    let cas = Some(Timestamp::new(1));
    assert_eq!(registry.start_request(&key("alice"), &packet("alice", 1, 7), cas), Ok(()));
    assert_eq!(votes(&registry, &key("alice")), before);

    // Both publishes share one write: two more successes decide it.
    assert_eq!(registry.add_result(&key("alice"), Ok(())), Ok(false));
    assert_eq!(registry.add_result(&key("alice"), Ok(())), Ok(true));
    assert!(registry.is_empty());
}

#[test]
fn older_record_is_refused_as_not_most_recent() {
    let mut registry = started(5, "alice");
    let refused = Err(NOT_MOST_RECENT);
    assert_eq!(registry.start_request(&key("alice"), &packet("alice", 2, 99), None), refused);
    let cas = Some(Timestamp::new(100));
    assert_eq!(registry.start_request(&key("alice"), &packet("alice", 2, 99), cas), refused);
    assert_eq!(votes(&registry, &key("alice")), Some((0, vec![])));
}

#[test]
fn record_of_the_same_time_is_refused_as_not_most_recent() {
    let mut registry = started(5, "alice");
    let refused = Err(NOT_MOST_RECENT);
    assert_eq!(registry.start_request(&key("alice"), &packet("alice", 2, 100), None), refused);
    assert_eq!(votes(&registry, &key("alice")), Some((0, vec![])));
}

#[test]
fn newer_record_without_cas_is_refused_as_conflict_risk() {
    let mut registry = started(5, "alice");
    let refused = Err(CONFLICT_RISK);
    assert_eq!(registry.start_request(&key("alice"), &packet("alice", 2, 101), None), refused);
    assert_eq!(votes(&registry, &key("alice")), Some((0, vec![])));
}

#[test]
fn newer_record_with_matching_cas_is_admitted() {
    let mut registry = started(5, "alice");
    let cas = Some(Timestamp::new(100));
    assert_eq!(registry.start_request(&key("alice"), &packet("alice", 2, 101), cas), Ok(()));
    // The first record stays the one that is voted on.
    assert_eq!(votes(&registry, &key("alice")), Some((0, vec![])));
    let admitted = registry.admitted(&key("alice")).unwrap();
    assert_eq!(admitted.timestamp(), Timestamp::new(100));
    assert_eq!(admitted.signature(), &vec![1u8; 64]);
    assert_eq!(registry.start_request(&key("alice"), &packet("alice", 1, 100), None), Ok(()));
    assert_eq!(
        registry.start_request(&key("alice"), &packet("alice", 2, 101), None),
        Err(CONFLICT_RISK)
    );
}

#[test]
fn newer_record_with_other_cas_is_refused_as_cas_failed() {
    let mut registry = started(5, "alice");
    let refused = Err(CAS_FAILED);
    let cas = Some(Timestamp::new(99));
    assert_eq!(registry.start_request(&key("alice"), &packet("alice", 2, 101), cas), refused);
    let cas = Some(Timestamp::new(101));
    assert_eq!(registry.start_request(&key("alice"), &packet("alice", 2, 101), cas), refused);
    assert_eq!(votes(&registry, &key("alice")), Some((0, vec![])));
}

#[test]
fn keys_do_not_share_a_write() {
    let mut registry = started(3, "alice");
    assert_eq!(registry.start_request(&key("bob"), &packet("bob", 2, 50), None), Ok(()));
    assert_eq!(registry.add_result(&key("alice"), Ok(())), Ok(false));
    assert_eq!(registry.add_result(&key("bob"), Err(TIMEOUT)), Ok(false));
    assert_eq!(votes(&registry, &key("alice")), Some((1, vec![])));
    assert_eq!(votes(&registry, &key("bob")), Some((0, vec![entry(TIMEOUT, 1)])));
    assert_eq!(registry.add_result(&key("alice"), Ok(())), Ok(true));
    assert!(!registry.contains(&key("alice")));
    assert_eq!(votes(&registry, &key("bob")), Some((0, vec![entry(TIMEOUT, 1)])));
}

#[test]
fn three_successes_of_five_decide_without_the_rest() {
    let mut registry = started(5, "alice");
    assert_eq!(registry.add_result(&key("alice"), Ok(())), Ok(false));
    assert_eq!(registry.add_result(&key("alice"), Ok(())), Ok(false));
    assert_eq!(votes(&registry, &key("alice")), Some((2, vec![])));
    assert_eq!(registry.add_result(&key("alice"), Ok(())), Ok(true));
    assert!(registry.is_empty());
}

#[test]
fn three_cas_failures_of_five_decide_without_the_rest() {
    let mut registry = started(5, "alice");
    assert_eq!(registry.add_result(&key("alice"), Err(CAS_FAILED)), Ok(false));
    assert_eq!(registry.add_result(&key("alice"), Err(CAS_FAILED)), Ok(false));
    assert_eq!(votes(&registry, &key("alice")), Some((0, vec![entry(CAS_FAILED, 2)])));
    assert_eq!(registry.add_result(&key("alice"), Err(CAS_FAILED)), Err(CAS_FAILED));
    assert!(registry.is_empty());
}

#[test]
fn three_not_most_recent_of_five_decide_without_the_rest() {
    let mut registry = started(5, "alice");
    assert_eq!(registry.add_result(&key("alice"), Ok(())), Ok(false));
    assert_eq!(registry.add_result(&key("alice"), Err(NOT_MOST_RECENT)), Ok(false));
    assert_eq!(registry.add_result(&key("alice"), Err(NOT_MOST_RECENT)), Ok(false));
    assert_eq!(registry.add_result(&key("alice"), Err(NOT_MOST_RECENT)), Err(NOT_MOST_RECENT));
    assert!(registry.is_empty());
}

#[test]
fn no_majority_among_five_fails_with_the_most_common_error() {
    let answers = [Ok(()), Ok(()), Err(TIMEOUT), Err(TIMEOUT), Err(NOT_MOST_RECENT)];
    let orders: [[usize; 5]; 4] = [[0, 1, 2, 3, 4], [4, 3, 2, 1, 0], [2, 0, 4, 1, 3], [4, 2, 3, 0, 1]];
    for order in orders {
        let mut registry = started(5, "alice");
        for place in 0..4 {
            assert_eq!(registry.add_result(&key("alice"), answers[order[place]]), Ok(false));
        }
        assert_eq!(registry.add_result(&key("alice"), answers[order[4]]), Err(TIMEOUT));
        assert!(registry.is_empty());
    }
}

#[test]
fn tie_among_errors_goes_by_rank_in_any_order() {
    let orders = [
        [UNCLASSIFIED, TIMEOUT, TIMEOUT, UNCLASSIFIED],
        [TIMEOUT, UNCLASSIFIED, UNCLASSIFIED, TIMEOUT],
        [TIMEOUT, TIMEOUT, UNCLASSIFIED, UNCLASSIFIED],
        [UNCLASSIFIED, UNCLASSIFIED, TIMEOUT, TIMEOUT],
    ];
    for order in orders {
        let mut registry = started(4, "alice");
        for error in &order[..3] {
            assert_eq!(registry.add_result(&key("alice"), Err(*error)), Ok(false));
        }
        assert_eq!(registry.add_result(&key("alice"), Err(order[3])), Err(UNCLASSIFIED));
    }
}

#[test]
fn tie_between_a_conflict_and_a_timeout_goes_to_the_conflict() {
    let mut registry = started(5, "alice");
    assert_eq!(registry.add_result(&key("alice"), Err(TIMEOUT)), Ok(false));
    assert_eq!(registry.add_result(&key("alice"), Err(TIMEOUT)), Ok(false));
    assert_eq!(registry.add_result(&key("alice"), Ok(())), Ok(false));
    assert_eq!(registry.add_result(&key("alice"), Err(CAS_FAILED)), Ok(false));
    assert_eq!(registry.add_result(&key("alice"), Err(CAS_FAILED)), Err(CAS_FAILED));

    let mut registry = started(4, "alice");
    assert_eq!(registry.add_result(&key("alice"), Err(CONFLICT_RISK)), Ok(false));
    assert_eq!(registry.add_result(&key("alice"), Err(NOT_MOST_RECENT)), Ok(false));
    assert_eq!(registry.add_result(&key("alice"), Err(CAS_FAILED)), Ok(false));
    assert_eq!(registry.add_result(&key("alice"), Err(UNCLASSIFIED)), Err(NOT_MOST_RECENT));
}

#[test]
fn last_answer_without_a_majority_fails_even_if_it_is_a_success() {
    let mut registry = started(5, "alice");
    assert_eq!(registry.add_result(&key("alice"), Err(TIMEOUT)), Ok(false));
    assert_eq!(registry.add_result(&key("alice"), Err(CONFLICT_RISK)), Ok(false));
    assert_eq!(registry.add_result(&key("alice"), Err(CONFLICT_RISK)), Ok(false));
    assert_eq!(registry.add_result(&key("alice"), Ok(())), Ok(false));
    assert_eq!(registry.add_result(&key("alice"), Ok(())), Err(CONFLICT_RISK));
    assert!(registry.is_empty());
}

#[test]
fn majority_of_other_errors_waits_for_every_relay() {
    for error in [TIMEOUT, UNCLASSIFIED, CONFLICT_RISK] {
        let mut registry = started(5, "alice");
        for _ in 0..4 {
            assert_eq!(registry.add_result(&key("alice"), Err(error)), Ok(false));
        }
        assert_eq!(votes(&registry, &key("alice")), Some((0, vec![entry(error, 4)])));
        assert_eq!(registry.add_result(&key("alice"), Err(error)), Err(error));
        assert!(registry.is_empty());
    }
}

#[test]
fn success_after_a_majority_of_timeouts_cannot_win() {
    let mut registry = started(5, "alice");
    for _ in 0..3 {
        assert_eq!(registry.add_result(&key("alice"), Err(TIMEOUT)), Ok(false));
    }
    assert_eq!(registry.add_result(&key("alice"), Ok(())), Ok(false));
    assert_eq!(registry.add_result(&key("alice"), Ok(())), Err(TIMEOUT));
}

#[test]
fn answer_without_a_write_in_flight_changes_nothing() {
    let mut registry = InflightPublishRequests::new(3);
    assert_eq!(registry.add_result(&key("alice"), Ok(())), Ok(false));
    assert_eq!(registry.add_result(&key("alice"), Err(CAS_FAILED)), Ok(false));
    assert_eq!(registry.add_success(&key("alice")), Ok(false));
    assert_eq!(registry.add_error(&key("alice"), NOT_MOST_RECENT), Ok(false));
    assert!(registry.is_empty());

    let mut registry = started(3, "bob");
    assert_eq!(registry.add_result(&key("alice"), Ok(())), Ok(false));
    assert_eq!(votes(&registry, &key("bob")), Some((0, vec![])));
}

#[test]
fn late_answers_after_the_decision_change_nothing() {
    let mut registry = started(3, "alice");
    assert_eq!(registry.add_result(&key("alice"), Ok(())), Ok(false));
    assert_eq!(registry.add_result(&key("alice"), Ok(())), Ok(true));
    assert_eq!(registry.add_result(&key("alice"), Ok(())), Ok(false));
    assert_eq!(registry.add_result(&key("alice"), Err(TIMEOUT)), Ok(false));
    assert!(registry.is_empty());
    // The key is free for the next write.
    assert_eq!(registry.start_request(&key("alice"), &packet("alice", 2, 50), None), Ok(()));
    assert_eq!(votes(&registry, &key("alice")), Some((0, vec![])));
}

#[test]
fn one_relay_decides_alone() {
    let mut registry = started(1, "alice");
    assert_eq!(registry.add_result(&key("alice"), Ok(())), Ok(true));
    let mut registry = started(1, "alice");
    assert_eq!(registry.add_result(&key("alice"), Err(TIMEOUT)), Err(TIMEOUT));
    let mut registry = started(1, "alice");
    assert_eq!(registry.add_result(&key("alice"), Err(CAS_FAILED)), Err(CAS_FAILED));
    assert!(registry.is_empty());
}

#[test]
fn two_relays_need_both_successes() {
    let mut registry = started(2, "alice");
    assert_eq!(registry.add_result(&key("alice"), Ok(())), Ok(false));
    assert_eq!(registry.add_result(&key("alice"), Ok(())), Ok(true));
    let mut registry = started(2, "alice");
    assert_eq!(registry.add_result(&key("alice"), Ok(())), Ok(false));
    assert_eq!(registry.add_result(&key("alice"), Err(CAS_FAILED)), Err(CAS_FAILED));
    let mut registry = started(2, "alice");
    assert_eq!(registry.add_result(&key("alice"), Err(NOT_MOST_RECENT)), Ok(false));
    assert_eq!(registry.add_result(&key("alice"), Ok(())), Err(NOT_MOST_RECENT));
}

#[test]
fn no_relays_decide_on_the_first_answer() {
    let mut registry = started(0, "alice");
    assert_eq!(registry.majority(), 1);
    assert_eq!(votes(&registry, &key("alice")), Some((0, vec![])));
    assert_eq!(registry.add_result(&key("alice"), Ok(())), Ok(true));
    let mut registry = started(0, "alice");
    assert_eq!(registry.add_result(&key("alice"), Err(TIMEOUT)), Err(TIMEOUT));
    let mut registry = started(0, "alice");
    assert_eq!(registry.add_result(&key("alice"), Err(NOT_MOST_RECENT)), Err(NOT_MOST_RECENT));
    assert!(registry.is_empty());
}

#[test]
fn add_success_and_add_error_are_add_result() {
    let mut by_result = started(5, "alice");
    let mut by_kind = started(5, "alice");
    assert_eq!(by_result.add_result(&key("alice"), Ok(())), by_kind.add_success(&key("alice")));
    assert_eq!(
        by_result.add_result(&key("alice"), Err(TIMEOUT)),
        by_kind.add_error(&key("alice"), TIMEOUT)
    );
    assert_eq!(votes(&by_result, &key("alice")), votes(&by_kind, &key("alice")));
    assert_eq!(votes(&by_kind, &key("alice")), Some((1, vec![entry(TIMEOUT, 1)])));
}

#[test]
fn votes_never_exceed_the_relays() {
    let answers = [Ok(()), Err(TIMEOUT), Err(CAS_FAILED), Err(UNCLASSIFIED), Ok(()), Err(TIMEOUT)];
    for relays in 0..8usize {
        let mut registry = started(relays, "alice");
        for round in 0..20usize {
            let _ = registry.add_result(&key("alice"), answers[(round * 5 + relays) % answers.len()]);
            if let Some((successes, errors)) = votes(&registry, &key("alice")) {
                let reported = successes + errors.iter().map(|entry| entry.1).sum::<usize>();
                assert!(reported < relays);
                assert!(successes < registry.majority());
            } else {
                let again = registry.start_request(&key("alice"), &packet("alice", 1, 100), None);
                assert_eq!(again, Ok(()));
            }
        }
    }
}

#[test]
fn would_admit_tells_the_admission_and_changes_nothing() {
    let mut registry = InflightPublishRequests::new(5);
    // A key without a write in flight: anything is let through, nothing is started.
    assert_eq!(registry.would_admit(&key("alice"), &packet("alice", 1, 100), None), Ok(()));
    assert!(registry.is_empty());

    assert_eq!(registry.start_request(&key("alice"), &packet("alice", 1, 100), None), Ok(()));
    assert_eq!(registry.add_result(&key("alice"), Err(TIMEOUT)), Ok(false));
    let before = votes(&registry, &key("alice"));

    let same = packet("alice", 1, 100);
    let older = packet("alice", 2, 99);
    let newer = packet("alice", 2, 101);
    assert_eq!(registry.would_admit(&key("alice"), &same, None), Ok(()));
    assert_eq!(registry.would_admit(&key("alice"), &older, None), Err(NOT_MOST_RECENT));
    assert_eq!(registry.would_admit(&key("alice"), &newer, None), Err(CONFLICT_RISK));
    assert_eq!(registry.would_admit(&key("alice"), &newer, Some(Timestamp::new(100))), Ok(()));
    assert_eq!(registry.would_admit(&key("alice"), &newer, Some(Timestamp::new(7))), Err(CAS_FAILED));
    assert_eq!(registry.would_admit(&key("bob"), &packet("bob", 3, 1), None), Ok(()));
    assert_eq!(votes(&registry, &key("alice")), before);
    assert!(!registry.contains(&key("bob")));

    // What it tells is what a start gives.
    assert_eq!(registry.start_request(&key("alice"), &older, None), Err(NOT_MOST_RECENT));
    assert_eq!(registry.start_request(&key("alice"), &newer, None), Err(CONFLICT_RISK));
}

#[test]
fn stale_record_is_refused_whatever_the_cas() {
    let mut registry = started(5, "alice");
    let older = packet("alice", 2, 99);
    for cas in [None, Some(Timestamp::new(0)), Some(Timestamp::new(100)), Some(Timestamp::new(u64::MAX))] {
        assert_eq!(registry.would_admit(&key("alice"), &older, cas), Err(NOT_MOST_RECENT));
        assert_eq!(registry.start_request(&key("alice"), &older, cas), Err(NOT_MOST_RECENT));
    }
    assert_eq!(votes(&registry, &key("alice")), Some((0, vec![])));
}
