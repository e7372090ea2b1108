use relay_quorum::client::RelaysClient;
use relay_quorum::error::{ConcurrencyError, PublishError, QueryError};
use relay_quorum::record::{PublicKey, SignedPacket, Timestamp};
use relay_quorum::relay::Relay;
use relay_quorum::transport::TransportError;

const TIMEOUT: PublishError = PublishError::Query(QueryError::Timeout);
const UNCLASSIFIED: PublishError = PublishError::Query(QueryError::Unclassified);
const NOT_MOST_RECENT: PublishError = PublishError::Concurrency(ConcurrencyError::NotMostRecent);
const CAS_FAILED: PublishError = PublishError::Concurrency(ConcurrencyError::CasFailed);
const CONFLICT_RISK: PublishError = PublishError::Concurrency(ConcurrencyError::ConflictRisk);

fn key(text: &str) -> PublicKey {
    PublicKey::new(text.to_string()).unwrap()
}

fn packet(key_text: &str, signature: u8, micros: u64) -> SignedPacket {
    SignedPacket::new(key(key_text), vec![signature; 64], Timestamp::new(micros), vec![signature, 0])
}

fn client(relays: usize) -> RelaysClient {
    let relays = (0..relays)
        .map(|i| Relay::parse(&format!("https://relay{}.example", i)).unwrap())
        .collect();
    RelaysClient::new(relays, 2_000)
}

fn timed_out() -> Result<u16, TransportError> {
    Err(TransportError { timeout: true, status: None })
}

#[test]
fn new_client_has_nothing_in_flight() {
    let client = client(3);
    assert_eq!(client.relays_count(), 3);
    let addresses: Vec<&str> = client.relays().iter().map(|relay| relay.as_str()).collect();
    assert_eq!(addresses, vec!["https://relay0.example", "https://relay1.example", "https://relay2.example"]);
    assert_eq!(client.timeout_nanos(), 2_000);
    assert!(client.inflight_publish().is_empty());
    assert_eq!(client.inflight_publish().relays_count(), 3);
    assert_eq!(client.inflight_publish().majority(), 2);
}

#[test]
fn publish_lists_one_write_for_each_relay() {
    let mut client = client(3);
    let requests = client.publish(&packet("alice", 1, 100), None).unwrap();
    assert_eq!(requests.len(), 3);
    for (i, request) in requests.iter().enumerate() {
        assert_eq!(request.url, format!("https://relay{}.example/alice", i));
        assert_eq!(request.body, vec![1, 0]);
        assert_eq!(request.if_unmodified_since, None);
        assert_eq!(request.timeout_nanos, 6_000);
    }
    assert_eq!(client.inflight_publish().success_count(&key("alice")), Some(0));
    assert_eq!(client.inflight_publish().error_count(&key("alice"), TIMEOUT), Some(0));
}

#[test]
fn publish_with_cas_sends_its_http_date() {
    let mut client = client(2);
    let cas = Some(Timestamp::new(1_431_704_061_000_000));
    let requests = client.publish(&packet("alice", 1, 100), cas).unwrap();
    assert_eq!(requests.len(), 2);
    for request in &requests {
        assert_eq!(request.if_unmodified_since, Some("Fri, 15 May 2015 15:34:21 GMT".to_string()));
    }
}

#[test]
fn publish_without_relays_lists_nothing() {
    let mut client = client(0);
    let requests = client.publish(&packet("alice", 1, 100), None).unwrap();
    assert!(requests.is_empty());
    assert!(client.inflight_publish().contains(&key("alice")));
}

#[test]
fn refused_publish_asks_no_relay_and_changes_nothing() {
    let mut client = client(5);
    client.publish(&packet("alice", 1, 100), None).unwrap();
    assert_eq!(client.publish_result(&key("alice"), Ok(200)), None);
    assert_eq!(client.publish_result(&key("alice"), timed_out()), None);

    assert_eq!(client.publish(&packet("alice", 2, 99), None).unwrap_err(), NOT_MOST_RECENT);
    assert_eq!(client.publish(&packet("alice", 2, 101), None).unwrap_err(), CONFLICT_RISK);
    let wrong = Some(Timestamp::new(1));
    assert_eq!(client.publish(&packet("alice", 2, 101), wrong).unwrap_err(), CAS_FAILED);
    assert_eq!(client.inflight_publish().success_count(&key("alice")), Some(1));
    assert_eq!(client.inflight_publish().error_count(&key("alice"), TIMEOUT), Some(1));
    for error in [UNCLASSIFIED, NOT_MOST_RECENT, CAS_FAILED, CONFLICT_RISK] {
        assert_eq!(client.inflight_publish().error_count(&key("alice"), error), Some(0));
    }
    let admitted = client.inflight_publish().admitted(&key("alice")).unwrap();
    assert_eq!(admitted.timestamp(), Timestamp::new(100));
}

#[test]
fn joined_and_conditional_publishes_are_sent_too() {
    let mut client = client(3);
    client.publish(&packet("alice", 1, 100), None).unwrap();
    let joined = client.publish(&packet("alice", 1, 100), None).unwrap();
    assert_eq!(joined.len(), 3);
    assert_eq!(joined[0].body, vec![1, 0]);
    let cas = Some(Timestamp::new(100));
    let newer = client.publish(&packet("alice", 2, 101), cas).unwrap();
    assert_eq!(newer.len(), 3);
    assert_eq!(newer[2].url, "https://relay2.example/alice");
    assert_eq!(newer[2].body, vec![2, 0]);
    assert_eq!(newer[2].if_unmodified_since, Some("Thu, 01 Jan 1970 00:00:00 GMT".to_string()));
    assert_eq!(client.inflight_publish().success_count(&key("alice")), Some(0));
    let admitted = client.inflight_publish().admitted(&key("alice")).unwrap();
    assert_eq!(admitted.timestamp(), Timestamp::new(100));
}

#[test]
fn three_ok_responses_of_five_publish() {
    let mut client = client(5);
    client.publish(&packet("alice", 1, 100), None).unwrap();
    assert_eq!(client.publish_result(&key("alice"), Ok(200)), None);
    assert_eq!(client.publish_result(&key("alice"), Ok(204)), None);
    assert_eq!(client.publish_result(&key("alice"), Ok(200)), Some(Ok(())));
    assert!(client.inflight_publish().is_empty());
    assert_eq!(client.publish_result(&key("alice"), Ok(200)), None);
    assert_eq!(client.publish_result(&key("alice"), timed_out()), None);
}

#[test]
fn three_precondition_failures_of_five_fail_the_publish() {
    let mut client = client(5);
    client.publish(&packet("alice", 1, 100), Some(Timestamp::new(50))).unwrap();
    assert_eq!(client.publish_result(&key("alice"), Ok(412)), None);
    assert_eq!(client.publish_result(&key("alice"), Ok(200)), None);
    assert_eq!(client.publish_result(&key("alice"), Ok(412)), None);
    assert_eq!(client.publish_result(&key("alice"), Ok(412)), Some(Err(CAS_FAILED)));
    assert!(client.inflight_publish().is_empty());
}

#[test]
fn three_conflicts_of_five_fail_the_publish() {
    let mut client = client(5);
    client.publish(&packet("alice", 1, 100), None).unwrap();
    let conflict = Err(TransportError { timeout: false, status: Some(409) });
    assert_eq!(client.publish_result(&key("alice"), Ok(409)), None);
    assert_eq!(client.publish_result(&key("alice"), conflict), None);
    assert_eq!(client.publish_result(&key("alice"), Ok(409)), Some(Err(NOT_MOST_RECENT)));
}

#[test]
fn answers_of_all_five_without_majority_fail_the_publish() {
    let mut client = client(5);
    client.publish(&packet("alice", 1, 100), None).unwrap();
    assert_eq!(client.publish_result(&key("alice"), Ok(200)), None);
    assert_eq!(client.publish_result(&key("alice"), timed_out()), None);
    assert_eq!(client.publish_result(&key("alice"), Ok(409)), None);
    assert_eq!(client.publish_result(&key("alice"), Ok(200)), None);
    assert_eq!(client.publish_result(&key("alice"), timed_out()), Some(Err(TIMEOUT)));
    assert!(client.inflight_publish().is_empty());
}

#[test]
fn unclassified_statuses_count_toward_the_end_only() {
    let mut client = client(3);
    client.publish(&packet("alice", 1, 100), None).unwrap();
    assert_eq!(client.publish_result(&key("alice"), Ok(500)), None);
    assert_eq!(client.publish_result(&key("alice"), Ok(400)), None);
    assert_eq!(client.publish_result(&key("alice"), Ok(503)), Some(Err(UNCLASSIFIED)));
}

#[test]
fn precondition_required_counts_toward_the_end_only() {
    let mut client = client(3);
    client.publish(&packet("alice", 1, 100), None).unwrap();
    assert_eq!(client.publish_result(&key("alice"), Ok(428)), None);
    assert_eq!(client.publish_result(&key("alice"), Ok(428)), None);
    assert_eq!(client.publish_result(&key("alice"), Ok(200)), Some(Err(CONFLICT_RISK)));
}

#[test]
fn request_that_failed_otherwise_counts_as_timeout() {
    let mut client = client(1);
    client.publish(&packet("alice", 1, 100), None).unwrap();
    let failed = Err(TransportError { timeout: false, status: None });
    assert_eq!(client.publish_result(&key("alice"), failed), Some(Err(TIMEOUT)));
}

#[test]
fn resolve_lists_one_read_for_each_relay() {
    let client = client(4);
    let requests = client.resolve(&key("alice"), None);
    assert_eq!(requests.len(), 4);
    for (i, request) in requests.iter().enumerate() {
        assert_eq!(request.url, format!("https://relay{}.example/alice", i));
        assert_eq!(request.if_modified_since, None);
        assert_eq!(request.timeout_nanos, 2_000);
    }
    assert!(client.inflight_publish().is_empty());
}

#[test]
fn resolve_for_a_newer_record_sends_the_http_date() {
    let client = client(2);
    let requests = client.resolve(&key("bob"), Some(Timestamp::new(1_431_704_061_500_000)));
    assert_eq!(requests.len(), 2);
    for request in &requests {
        assert_eq!(request.if_modified_since, Some("Fri, 15 May 2015 15:34:21 GMT".to_string()));
    }
    assert!(client.resolve(&key("bob"), None).iter().all(|r| r.if_modified_since.is_none()));
}

#[test]
fn resolve_without_relays_lists_nothing() {
    assert!(client(0).resolve(&key("alice"), None).is_empty());
}

#[test]
fn refused_publish_needs_no_http_date() {
    let mut client = client(5);
    client.publish(&packet("alice", 1, 100), None).unwrap();
    // A token past the year 9999 has no HTTP date, and none is asked for
    // where the publish is refused.
    let far = Some(Timestamp::new(u64::MAX));
    assert!(!Timestamp::new(u64::MAX).before_http_date_end());
    assert_eq!(client.would_admit(&packet("alice", 2, 99), far), Err(NOT_MOST_RECENT));
    assert_eq!(client.publish(&packet("alice", 2, 99), far).unwrap_err(), NOT_MOST_RECENT);
    assert_eq!(client.would_admit(&packet("alice", 2, 101), far), Err(CAS_FAILED));
    assert_eq!(client.publish(&packet("alice", 2, 101), far).unwrap_err(), CAS_FAILED);
    assert_eq!(client.inflight_publish().success_count(&key("alice")), Some(0));
    assert_eq!(client.inflight_publish().error_count(&key("alice"), TIMEOUT), Some(0));
}

#[test]
fn would_admit_tells_what_publish_will_say() {
    let mut client = client(3);
    assert_eq!(client.would_admit(&packet("alice", 1, 100), None), Ok(()));
    assert!(client.inflight_publish().is_empty());
    client.publish(&packet("alice", 1, 100), None).unwrap();
    assert_eq!(client.would_admit(&packet("alice", 1, 100), None), Ok(()));
    assert_eq!(client.would_admit(&packet("alice", 2, 101), None), Err(CONFLICT_RISK));
    assert_eq!(client.would_admit(&packet("alice", 2, 101), Some(Timestamp::new(100))), Ok(()));
    assert_eq!(client.would_admit(&packet("bob", 2, 1), None), Ok(()));
    assert!(!client.inflight_publish().contains(&key("bob")));
}

#[test]
fn read_timeout_is_the_base_and_write_timeout_three_times_it() {
    let relays = vec![Relay::parse("https://relay.example").unwrap()];
    // A second and a half, told in nanoseconds.
    let mut client = RelaysClient::new(relays, 1_500_000_001);
    assert_eq!(client.timeout_nanos(), 1_500_000_001);
    let reads = client.resolve(&key("alice"), None);
    assert_eq!(reads[0].timeout_nanos, 1_500_000_001);
    let writes = client.publish(&packet("alice", 1, 100), None).unwrap();
    assert_eq!(writes[0].timeout_nanos, 4_500_000_003);
}
