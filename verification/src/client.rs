//! The client for a fixed set of relays.
//!
//! A publish is decided by the majority of the relays, a resolve takes what
//! any relay has. The client says what to send to each relay and is told
//! each answer as it arrives; sending and waiting are the caller's part.

use vstd::prelude::*;

use crate::error::PublishError;
use crate::inflight::InflightPublishRequests;
use crate::quorum::{admission, after_result, after_start, result_verdict, RequestView};
use crate::record::{http_date, PublicKey, SignedPacket, Timestamp};
use crate::relay::{url_with_segment, Relay};
use crate::transport::{
    classify, map_reqwest_error, publish_to_relay, resolve_from_relay, write_outcome,
    write_result, ReadRequest, TransportError, WriteRequest,
};

verus! {

/// Whether `date` is the HTTP date of `timestamp`, or absent with it.
pub open spec fn is_date_of(date: Option<String>, timestamp: Option<Timestamp>) -> bool {
    match timestamp {
        Some(timestamp) => date matches Some(date) && date@ == http_date(timestamp.micros()),
        None => date is None,
    }
}

/// Whether `request` is the write of `signed_packet` to the relay at `relay`
/// under the condition `cas`, given the client's `timeout_nanos`.
pub open spec fn is_write_of(
    request: WriteRequest,
    relay: Seq<char>,
    signed_packet: &SignedPacket,
    cas: Option<Timestamp>,
    timeout_nanos: u128,
) -> bool {
    &&& request.url@ == url_with_segment(relay, signed_packet@.public_key)
    &&& request.body@ == signed_packet@.payload
    &&& is_date_of(request.if_unmodified_since, cas)
    &&& request.timeout_nanos == timeout_nanos * 3
}

/// Whether `request` is the read of the record of `public_key` from the
/// relay at `relay`, for a record newer than `more_recent_than` if that is
/// given, with the client's `timeout_nanos`.
pub open spec fn is_read_of(
    request: ReadRequest,
    relay: Seq<char>,
    public_key: Seq<char>,
    more_recent_than: Option<Timestamp>,
    timeout_nanos: u128,
) -> bool {
    &&& request.url@ == url_with_segment(relay, public_key)
    &&& is_date_of(request.if_modified_since, more_recent_than)
    &&& request.timeout_nanos == timeout_nanos
}

/// The vote that a relay's answer to a write is: its acceptance, or the
/// error that the failure counts as.
pub open spec fn relay_vote(response: Result<u16, TransportError>) -> Result<(), PublishError> {
    match write_result(response) {
        Ok(_) => Ok(()),
        Err(error) => Err(classify(error)),
    }
}

/// What a verdict means for the publish: its result once decided, nothing
/// before.
pub open spec fn decision_of(verdict: Result<bool, PublishError>) -> Option<Result<(), PublishError>> {
    match verdict {
        Ok(true) => Some(Ok(())),
        Ok(false) => None,
        Err(error) => Some(Err(error)),
    }
}

/// The HTTP date of `timestamp`, where there is one.
fn http_date_of(timestamp: Option<Timestamp>) -> (date: Option<String>)
    requires
        timestamp matches Some(t) ==> t.has_http_date(),
    ensures
        is_date_of(date, timestamp),
{
    match timestamp {
        Some(timestamp) => Some(timestamp.format_http_date()),
        None => None,
    }
}

fn copy_date(date: &Option<String>) -> (copy: Option<String>)
    ensures
        copy == *date,
{
    match date {
        Some(date) => Some(date.clone()),
        None => None,
    }
}

/// A client for a fixed set of relays.
#[derive(Debug)]
pub struct RelaysClient {
    relays: Vec<Relay>,
    timeout_nanos: u128,
    inflight_publish: InflightPublishRequests,
}

impl RelaysClient {
    /// The addresses of the relays, in the order in which they are asked.
    pub closed spec fn relay_urls(&self) -> Seq<Seq<char>> {
        self.relays@.map_values(|relay: Relay| relay@)
    }

    /// The time allowed for a read, in nanoseconds. A write is allowed
    /// three times as much.
    pub closed spec fn timeout(&self) -> u128 {
        self.timeout_nanos
    }

    /// The writes in flight.
    pub closed spec fn inflight(&self) -> Map<Seq<char>, RequestView> {
        self.inflight_publish@
    }

    /// What holds of every client: its votes are counted against the number
    /// of its relays, and the time allowed for a write can be computed.
    #[verifier::type_invariant]
    spec fn wf(&self) -> bool {
        &&& self.inflight_publish.relays() == self.relays.len()
        &&& self.timeout_nanos * 3 <= u128::MAX
    }

    /// A client for `relays` that allows `timeout_nanos` nanoseconds for a
    /// read.
    pub fn new(relays: Vec<Relay>, timeout_nanos: u128) -> (client: Self)
        requires
            timeout_nanos * 3 <= u128::MAX,
        ensures
            client.relay_urls() == relays@.map_values(|relay: Relay| relay@),
            client.timeout() == timeout_nanos,
            client.inflight() == Map::<Seq<char>, RequestView>::empty(),
    {
        let inflight_publish = InflightPublishRequests::new(relays.len());
        RelaysClient { relays, timeout_nanos, inflight_publish }
    }

    /// The time allowed for a read, in nanoseconds.
    pub fn timeout_nanos(&self) -> (timeout_nanos: u128)
        ensures
            timeout_nanos == self.timeout(),
            timeout_nanos * 3 <= u128::MAX,
    {
        proof {
            use_type_invariant(self);
        }
        self.timeout_nanos
    }

    /// The relays, in the order in which they are asked.
    pub fn relays(&self) -> (relays: &Vec<Relay>)
        ensures
            relays@.map_values(|relay: Relay| relay@) == self.relay_urls(),
    {
        &self.relays
    }

    /// The number of relays.
    pub fn relays_count(&self) -> (n: usize)
        ensures
            n == self.relay_urls().len(),
    {
        self.relays.len()
    }

    /// The writes in flight.
    pub fn inflight_publish(&self) -> (registry: &InflightPublishRequests)
        ensures
            registry@ == self.inflight(),
            registry.relays() == self.relay_urls().len(),
    {
        proof {
            use_type_invariant(self);
        }
        &self.inflight_publish
    }

    /// Tells whether a publish of `signed_packet` on the condition `cas` would
    /// be let through as the writes in flight stand, and with which conflict
    /// it would be refused. Nothing changes.
    pub fn would_admit(&self, signed_packet: &SignedPacket, cas: Option<Timestamp>) -> (admitted:
        Result<(), PublishError>)
        ensures
            admitted == admission(self.inflight(), signed_packet@.public_key, signed_packet@, cas),
    {
        let public_key = signed_packet.public_key();
        self.inflight_publish.would_admit(&public_key, signed_packet, cas)
    }

    /// Starts a publish of `signed_packet`, on the condition `cas` if one is
    /// given.
    ///
    /// The record is first put to admission among the writes in flight for
    /// its key. If it is refused, that is the result, whatever `cas` is, and
    /// no relay is to be asked. If it is let through, the result lists the
    /// write to send to each relay, in the order of the relays; each answer
    /// is then to be handed to [`Self::publish_result`]. Only a publish that
    /// is let through needs a `cas` that can be written as an HTTP date:
    /// [`Self::would_admit`] tells beforehand.
    pub fn publish(&mut self, signed_packet: &SignedPacket, cas: Option<Timestamp>) -> (plan: Result<
        Vec<WriteRequest>,
        PublishError,
    >)
        requires
            admission(old(self).inflight(), signed_packet@.public_key, signed_packet@, cas) is Ok
                ==> (cas matches Some(t) ==> t.has_http_date()),
        ensures
            final(self).relay_urls() == old(self).relay_urls(),
            final(self).timeout() == old(self).timeout(),
            final(self).inflight() == after_start(
                old(self).inflight(),
                signed_packet@.public_key,
                signed_packet@,
            ),
            match plan {
                Ok(requests) => {
                    &&& admission(
                        old(self).inflight(),
                        signed_packet@.public_key,
                        signed_packet@,
                        cas,
                    ) is Ok
                    &&& requests.len() == old(self).relay_urls().len()
                    &&& forall|i: int|
                        0 <= i < requests.len() ==> is_write_of(
                            #[trigger] requests[i],
                            old(self).relay_urls()[i],
                            signed_packet,
                            cas,
                            old(self).timeout(),
                        )
                },
                Err(error) => admission(
                    old(self).inflight(),
                    signed_packet@.public_key,
                    signed_packet@,
                    cas,
                ) == Err::<(), PublishError>(error),
            },
    {
        proof {
            use_type_invariant(&*self);
        }
        let public_key = signed_packet.public_key();
        let mut registry = InflightPublishRequests::new(self.relays.len());
        std::mem::swap(&mut registry, &mut self.inflight_publish);
        let admitted = registry.start_request(&public_key, signed_packet, cas);
        self.inflight_publish = registry;
        match admitted {
            Err(error) => Err(error),
            Ok(_) => {
                let date = http_date_of(cas);
                let mut requests: Vec<WriteRequest> = Vec::new();
                let mut i: usize = 0;
                while i < self.relays.len()
                    invariant
                        i <= self.relays.len(),
                        requests.len() == i,
                        self.timeout_nanos * 3 <= u128::MAX,
                        is_date_of(date, cas),
                        public_key@ == signed_packet@.public_key,
                        forall|j: int|
                            0 <= j < i ==> is_write_of(
                                #[trigger] requests[j],
                                self.relays[j]@,
                                signed_packet,
                                cas,
                                self.timeout_nanos,
                            ),
                    decreases self.relays.len() - i,
                {
                    let request = publish_to_relay(
                        &self.relays[i],
                        &public_key,
                        signed_packet.to_relay_payload(),
                        copy_date(&date),
                        self.timeout_nanos,
                    );
                    requests.push(request);
                    i += 1;
                }
                Ok(requests)
            },
        }
    }

    /// Takes one relay's answer to a write for `public_key`: the status of
    /// its response, or the reason why there is none.
    ///
    /// The answer is counted as the relay's vote. Where the vote decides the
    /// publish, its result is returned, and votes that arrive later for the
    /// same write change nothing.
    pub fn publish_result(&mut self, public_key: &PublicKey, response: Result<u16, TransportError>) -> (decision:
        Option<Result<(), PublishError>>)
        ensures
            final(self).relay_urls() == old(self).relay_urls(),
            final(self).timeout() == old(self).timeout(),
            decision == decision_of(
                result_verdict(
                    old(self).inflight(),
                    public_key@,
                    relay_vote(response),
                    old(self).relay_urls().len(),
                ),
            ),
            final(self).inflight() == after_result(
                old(self).inflight(),
                public_key@,
                relay_vote(response),
                old(self).relay_urls().len(),
            ),
    {
        proof {
            use_type_invariant(&*self);
        }
        let vote = match write_outcome(response) {
            Ok(_) => Ok(()),
            Err(error) => Err(map_reqwest_error(error)),
        };
        let mut registry = InflightPublishRequests::new(self.relays.len());
        std::mem::swap(&mut registry, &mut self.inflight_publish);
        let verdict = registry.add_result(public_key, vote);
        self.inflight_publish = registry;
        match verdict {
            Ok(true) => Some(Ok(())),
            Ok(false) => None,
            Err(error) => Some(Err(error)),
        }
    }

    /// Starts a resolve of the record of `public_key`, for a record newer
    /// than `more_recent_than` if that is given: lists the read to send to
    /// each relay, in the order of the relays.
    pub fn resolve(&self, public_key: &PublicKey, more_recent_than: Option<Timestamp>) -> (requests: Vec<
        ReadRequest,
    >)
        requires
            more_recent_than matches Some(t) ==> t.has_http_date(),
        ensures
            requests.len() == self.relay_urls().len(),
            forall|i: int|
                0 <= i < requests.len() ==> is_read_of(
                    #[trigger] requests[i],
                    self.relay_urls()[i],
                    public_key@,
                    more_recent_than,
                    self.timeout(),
                ),
    {
        let date = http_date_of(more_recent_than);
        let mut requests: Vec<ReadRequest> = Vec::new();
        let mut i: usize = 0;
        while i < self.relays.len()
            invariant
                i <= self.relays.len(),
                requests.len() == i,
                is_date_of(date, more_recent_than),
                forall|j: int|
                    0 <= j < i ==> is_read_of(
                        #[trigger] requests[j],
                        self.relays[j]@,
                        public_key@,
                        more_recent_than,
                        self.timeout_nanos,
                    ),
            decreases self.relays.len() - i,
        {
            let request = resolve_from_relay(
                &self.relays[i],
                public_key,
                copy_date(&date),
                self.timeout_nanos,
            );
            requests.push(request);
            i += 1;
        }
        requests
    }
}

} // verus!
