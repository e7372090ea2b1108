//! One request to one relay: what is sent, and what is made of the answer.
//!
//! Nothing here touches the network. The caller sends what these functions
//! describe and hands back what the relay said.

use vstd::prelude::*;

use crate::error::{ConcurrencyError, PublishError, QueryError};
use crate::record::{PublicKey, SignedPacket, SignedPacketView};
use crate::relay::{format_url, url_with_segment, Relay};

verus! {

/// The relay holds a record at least as recent as the one sent.
pub const STATUS_CONFLICT: u16 = 409;

/// The record at the relay has changed since the time named in the request.
pub const STATUS_PRECONDITION_FAILED: u16 = 412;

/// The relay wants the write to name the time of the record it replaces.
pub const STATUS_PRECONDITION_REQUIRED: u16 = 428;

/// A status with which a relay refuses a request: a client or server error.
pub open spec fn is_error_status(status: u16) -> bool {
    400 <= status <= 599
}

/// What the HTTP client tells of a request that failed.
#[derive(Clone, Copy, Debug, PartialEq, Eq)]
pub struct TransportError {
    /// The request ran out of time.
    pub timeout: bool,
    /// The status of the response, where the failure is a response with an
    /// error status.
    pub status: Option<u16>,
}

/// The publish error that stands for a failed request.
///
/// A timeout is a timeout. The three statuses by which a relay reports a
/// conflict become the conflict they report. Every other status is an
/// unclassified failure of the relay. A request that failed in any other
/// way counts as one that got no answer in time.
pub open spec fn classify(error: TransportError) -> PublishError {
    if error.timeout {
        PublishError::Query(QueryError::Timeout)
    } else {
        match error.status {
            Some(status) => if status == STATUS_CONFLICT {
                PublishError::Concurrency(ConcurrencyError::NotMostRecent)
            } else if status == STATUS_PRECONDITION_FAILED {
                PublishError::Concurrency(ConcurrencyError::CasFailed)
            } else if status == STATUS_PRECONDITION_REQUIRED {
                PublishError::Concurrency(ConcurrencyError::ConflictRisk)
            } else {
                PublishError::Query(QueryError::Unclassified)
            },
            None => PublishError::Query(QueryError::Timeout),
        }
    }
}

/// Turns a failed request into the error that is counted for its relay.
pub fn map_reqwest_error(error: TransportError) -> (mapped: PublishError)
    ensures
        mapped == classify(error),
{
    if error.timeout {
        PublishError::Query(QueryError::Timeout)
    } else {
        match error.status {
            Some(status) => {
                if status == STATUS_CONFLICT {
                    PublishError::Concurrency(ConcurrencyError::NotMostRecent)
                } else if status == STATUS_PRECONDITION_FAILED {
                    PublishError::Concurrency(ConcurrencyError::CasFailed)
                } else if status == STATUS_PRECONDITION_REQUIRED {
                    PublishError::Concurrency(ConcurrencyError::ConflictRisk)
                } else {
                    PublishError::Query(QueryError::Unclassified)
                }
            },
            None => PublishError::Query(QueryError::Timeout),
        }
    }
}

/// A conditional write of a record to one relay.
#[derive(Debug)]
pub struct WriteRequest {
    /// Where the record is put.
    pub url: String,
    /// The HTTP date for the `If-Unmodified-Since` header, if the write is
    /// conditional.
    pub if_unmodified_since: Option<String>,
    /// The record as the relay stores it.
    pub body: Vec<u8>,
    /// How long to wait for the relay, in nanoseconds.
    pub timeout_nanos: u128,
}

/// The write of `body` for `public_key` to `relay`.
///
/// A relay hands a write on before it answers, so it is given three times
/// the client's `timeout_nanos`. `cas`, where given, is the HTTP date since
/// which the relay's record must be unchanged.
pub fn publish_to_relay(
    relay: &Relay,
    public_key: &PublicKey,
    body: Vec<u8>,
    cas: Option<String>,
    timeout_nanos: u128,
) -> (request: WriteRequest)
    requires
        timeout_nanos * 3 <= u128::MAX,
    ensures
        request.url@ == url_with_segment(relay@, public_key@),
        request.if_unmodified_since == cas,
        request.body == body,
        request.timeout_nanos == timeout_nanos * 3,
{
    WriteRequest {
        url: format_url(relay, public_key),
        if_unmodified_since: cas,
        body,
        timeout_nanos: timeout_nanos * 3,
    }
}

/// What a relay's answer to a write amounts to, where `response` is the
/// status of the response or the reason why there is none.
pub open spec fn write_result(response: Result<u16, TransportError>) -> Result<(), TransportError> {
    match response {
        Ok(status) => if is_error_status(status) {
            Err(TransportError { timeout: false, status: Some(status) })
        } else {
            Ok(())
        },
        Err(error) => Err(error),
    }
}

/// Judges a relay's answer to a write: the write is accepted unless the
/// request failed or the relay answered with an error status.
pub fn write_outcome(response: Result<u16, TransportError>) -> (outcome: Result<(), TransportError>)
    ensures
        outcome == write_result(response),
{
    match response {
        Ok(status) => {
            if 400 <= status && status <= 599 {
                Err(TransportError { timeout: false, status: Some(status) })
            } else {
                Ok(())
            }
        },
        Err(error) => Err(error),
    }
}

/// A read of a key's record from one relay.
#[derive(Debug)]
pub struct ReadRequest {
    /// Where the record is read from.
    pub url: String,
    /// The HTTP date for the `If-Modified-Since` header, if only a newer
    /// record is of interest.
    pub if_modified_since: Option<String>,
    /// How long to wait for the relay, in nanoseconds.
    pub timeout_nanos: u128,
}

/// The read of the record of `public_key` from `relay`.
///
/// A read is given the client's `timeout_nanos` as it is.
/// `if_modified_since`, where given, is the HTTP date after which the record
/// must have changed to be of interest.
pub fn resolve_from_relay(
    relay: &Relay,
    public_key: &PublicKey,
    if_modified_since: Option<String>,
    timeout_nanos: u128,
) -> (request: ReadRequest)
    ensures
        request.url@ == url_with_segment(relay@, public_key@),
        request.if_modified_since == if_modified_since,
        request.timeout_nanos == timeout_nanos,
{
    ReadRequest { url: format_url(relay, public_key), if_modified_since, timeout_nanos }
}

/// Where a read from one relay stands.
#[derive(Clone, Copy, Debug, PartialEq, Eq, Structural)]
pub enum ReadState {
    /// The request is sent, no response has come.
    AwaitingResponse,
    /// The response was accepted, its body is being read.
    AwaitingBody,
    /// The read is over.
    Finished,
}

/// What happened to a read.
#[derive(Debug)]
pub enum ReadEvent {
    /// The request failed before a response came.
    NoResponse,
    /// A response came, with this status and, where the relay declares it,
    /// this many bytes of body.
    Response { status: u16, content_length: Option<u64> },
    /// The body could not be read to its end.
    NoBody,
    /// The body was read: `record` is the record that it holds for the key
    /// asked for, or `None` where it holds no valid one.
    Body { record: Option<SignedPacket> },
}

/// What to do next for a read.
#[derive(Debug)]
pub enum ReadAction {
    /// Read the body of the response.
    ReadBody,
    /// Stop. The relay contributes the record, or nothing.
    Finish(Option<SignedPacket>),
}

/// The length that a response declares for its body, zero where it declares
/// none.
pub open spec fn declared_length(content_length: Option<u64>) -> u64 {
    match content_length {
        Some(length) => length,
        None => 0,
    }
}

/// Whether the body of a response is worth reading: the status is no error
/// and the declared length is that of a record.
pub open spec fn response_accepted(status: u16, content_length: Option<u64>) -> bool {
    !is_error_status(status) && declared_length(content_length) <= SignedPacket::MAX_BYTES
}

/// The record that a read contributes when `event` happens in `state`, if it
/// contributes one: the record of a body that arrived while it was awaited
/// and that is for the key asked for.
pub open spec fn contributed(state: ReadState, public_key: Seq<char>, event: ReadEvent) -> Option<
    SignedPacketView,
> {
    match event {
        ReadEvent::Body { record: Some(record) } => if state == ReadState::AwaitingBody
            && record@.public_key == public_key {
            Some(record@)
        } else {
            None
        },
        _ => None,
    }
}

/// Whether `event` in `state` makes the read go on to the body.
pub open spec fn proceeds(state: ReadState, event: ReadEvent) -> bool {
    state == ReadState::AwaitingResponse && (match event {
        ReadEvent::Response { status, content_length } => response_accepted(status, content_length),
        _ => false,
    })
}

/// The record inside an action, as plain values.
pub open spec fn action_record(action: ReadAction) -> Option<SignedPacketView> {
    match action {
        ReadAction::Finish(Some(record)) => Some(record@),
        _ => None,
    }
}

/// Advances the read of the record of `public_key` from one relay.
///
/// An accepted response leads to its body. Everything else ends the read:
/// a failure, an error status, a body declared longer than a record, an
/// event that does not fit the state. Only a body with a valid record for
/// `public_key`, arriving while a body is awaited, contributes a record.
pub fn read_step(state: ReadState, public_key: &PublicKey, event: ReadEvent) -> (next: (
    ReadState,
    ReadAction,
))
    ensures
        proceeds(state, event) ==> next.0 == ReadState::AwaitingBody && next.1 is ReadBody,
        !proceeds(state, event) ==> next.0 == ReadState::Finished && next.1 is Finish,
        action_record(next.1) == contributed(state, public_key@, event),
{
    match event {
        ReadEvent::Response { status, content_length } => {
            let length: u64 = match content_length {
                Some(length) => length,
                None => 0,
            };
            if state == ReadState::AwaitingResponse && !(400 <= status && status <= 599) && length
                <= SignedPacket::MAX_BYTES {
                (ReadState::AwaitingBody, ReadAction::ReadBody)
            } else {
                (ReadState::Finished, ReadAction::Finish(None))
            }
        },
        ReadEvent::Body { record: Some(record) } => {
            if state == ReadState::AwaitingBody && record.is_for(public_key) {
                (ReadState::Finished, ReadAction::Finish(Some(record)))
            } else {
                (ReadState::Finished, ReadAction::Finish(None))
            }
        },
        _ => (ReadState::Finished, ReadAction::Finish(None)),
    }
}

/// A response that declares a body longer than a record ends the read
/// without a record, in whatever state it arrives. A read has no error to
/// hand on: it ends with a record or with none.
pub proof fn lemma_oversized_response_dropped(
    state: ReadState,
    public_key: Seq<char>,
    status: u16,
    length: u64,
)
    requires
        length > SignedPacket::MAX_BYTES,
    ensures
        !proceeds(state, ReadEvent::Response { status, content_length: Some(length) }),
        contributed(state, public_key, ReadEvent::Response { status, content_length: Some(length) })
            is None,
{
}

/// Every record that a read contributes is for the key that was asked for.
pub proof fn lemma_contributed_for_key(state: ReadState, public_key: Seq<char>, event: ReadEvent)
    ensures
        contributed(state, public_key, event) matches Some(record) ==> record.public_key
            == public_key,
{
}

/// A resolve gives as many records as relays contributed one, and never more
/// than there are relays.
pub proof fn lemma_record_count(outcomes: Seq<Option<SignedPacket>>)
    ensures
        records_of(outcomes).len() == record_count(outcomes),
        record_count(outcomes) <= outcomes.len(),
        record_count(outcomes) == outcomes.len() <==> forall|i: int|
            0 <= i < outcomes.len() ==> outcomes[i] is Some,
    decreases outcomes.len(),
{
    if outcomes.len() > 0 {
        lemma_record_count(outcomes.drop_last());
        if record_count(outcomes) == outcomes.len() {
            assert forall|i: int| 0 <= i < outcomes.len() implies outcomes[i] is Some by {
                if i < outcomes.len() - 1 {
                    assert(outcomes.drop_last()[i] == outcomes[i]);
                }
            }
        }
        if forall|i: int| 0 <= i < outcomes.len() ==> outcomes[i] is Some {
            assert forall|i: int| 0 <= i < outcomes.drop_last().len() implies outcomes.drop_last()[i] is Some by {
                assert(outcomes.drop_last()[i] == outcomes[i]);
            }
        }
    }
}

/// The records among `outcomes`, in their order.
pub open spec fn records_of(outcomes: Seq<Option<SignedPacket>>) -> Seq<SignedPacketView>
    decreases outcomes.len(),
{
    if outcomes.len() == 0 {
        Seq::empty()
    } else {
        let before = records_of(outcomes.drop_last());
        match outcomes.last() {
            Some(record) => before.push(record@),
            None => before,
        }
    }
}

/// How many of `outcomes` are a record.
pub open spec fn record_count(outcomes: Seq<Option<SignedPacket>>) -> nat
    decreases outcomes.len(),
{
    if outcomes.len() == 0 {
        0
    } else {
        record_count(outcomes.drop_last()) + if outcomes.last() is Some {
            1nat
        } else {
            0nat
        }
    }
}

/// Where every contribution is for one key, so is every record of the
/// resolve.
pub proof fn lemma_records_for_key(outcomes: Seq<Option<SignedPacket>>, public_key: Seq<char>)
    requires
        forall|i: int|
            0 <= i < outcomes.len() ==> (#[trigger] outcomes[i] matches Some(record)
                ==> record@.public_key == public_key),
    ensures
        forall|j: int|
            0 <= j < records_of(outcomes).len() ==> (#[trigger] records_of(
                outcomes,
            )[j]).public_key == public_key,
    decreases outcomes.len(),
{
    if outcomes.len() > 0 {
        let before = outcomes.drop_last();
        assert forall|i: int| 0 <= i < before.len() implies (#[trigger] before[i] matches Some(
            record,
        ) ==> record@.public_key == public_key) by {
            assert(before[i] == outcomes[i]);
        }
        lemma_records_for_key(before, public_key);
        assert(outcomes.last() == outcomes[outcomes.len() - 1]);
        let records = records_of(outcomes);
        assert forall|j: int| 0 <= j < records.len() implies (#[trigger] records[j]).public_key
            == public_key by {
            if j < records_of(before).len() {
                assert(records[j] == records_of(before)[j]);
            }
        }
    }
}

/// The records that a resolve gives: of the relays' contributions, listed as
/// the relays finished, those that are a record, in that order.
pub fn resolved_records(outcomes: &Vec<Option<SignedPacket>>) -> (records: Vec<SignedPacket>)
    ensures
        records@.len() == record_count(outcomes@),
        records@.map_values(|record: SignedPacket| record@) == records_of(outcomes@),
{
    let mut records: Vec<SignedPacket> = Vec::new();
    let mut i: usize = 0;
    while i < outcomes.len()
        invariant
            i <= outcomes.len(),
            records@.len() == record_count(outcomes@.take(i as int)),
            records@.map_values(|record: SignedPacket| record@) == records_of(
                outcomes@.take(i as int),
            ),
        decreases outcomes.len() - i,
    {
        proof {
            assert(outcomes@.take(i + 1).drop_last() =~= outcomes@.take(i as int));
        }
        let ghost before = records@;
        match &outcomes[i] {
            Some(record) => {
                let copy = record.clone();
                records.push(copy);
                proof {
                    assert(records@.map_values(|record: SignedPacket| record@) =~= before.map_values(
                        |record: SignedPacket| record@,
                    ).push(copy@));
                }
            },
            None => {},
        }
        i += 1;
    }
    proof {
        assert(outcomes@.take(i as int) =~= outcomes@);
    }
    records
}

} // verus!
