//! The registry of writes that are waiting for their quorum.
//!
//! For each key there is at most one write in flight. Each relay's answer is
//! counted against it, and the write leaves the registry as soon as the counts
//! decide it: a majority of successes, a majority of one conflict error, or an
//! answer from every relay.

use vstd::prelude::*;

use crate::error::{ConcurrencyError, PublishError};
use crate::keyed::{as_map, holds_at, keys_distinct, lemma_added, lemma_found, lemma_removed};
use crate::quorum::{
    admission, admission_against, after_result, after_start, lemma_pending_kept,
    lemma_verdict_after_error,
    lemma_verdict_after_success, majority, result_verdict, RequestView,
};
use crate::record::{PublicKey, SignedPacket, Timestamp};
use crate::tally::{count_of, total_errors, ErrorTally};

verus! {

/// One write in flight: the record that was admitted and the answers counted
/// for it so far.
#[derive(Debug)]
struct InflightPublishRequest {
    signed_packet: SignedPacket,
    success_count: usize,
    errors: ErrorTally,
}

impl View for InflightPublishRequest {
    type V = RequestView;

    closed spec fn view(&self) -> RequestView {
        RequestView {
            signed_packet: self.signed_packet@,
            success_count: self.success_count as nat,
            errors: self.errors@,
        }
    }
}

impl InflightPublishRequest {
    /// Judges a publish of `signed_packet` against this write.
    fn judge(&self, signed_packet: &SignedPacket, cas: Option<Timestamp>) -> (admitted: Result<
        (),
        PublishError,
    >)
        ensures
            admitted == admission_against(self@.signed_packet, signed_packet@, cas),
    {
        if signed_packet.same_signature(&self.signed_packet) {
            Ok(())
        } else if !signed_packet.more_recent_than(&self.signed_packet) {
            Err(PublishError::Concurrency(ConcurrencyError::NotMostRecent))
        } else {
            match cas {
                Some(expected) => {
                    if expected == self.signed_packet.timestamp() {
                        Ok(())
                    } else {
                        Err(PublishError::Concurrency(ConcurrencyError::CasFailed))
                    }
                },
                None => Err(PublishError::Concurrency(ConcurrencyError::ConflictRisk)),
            }
        }
    }
}

#[derive(Debug)]
struct Slot {
    public_key: PublicKey,
    request: InflightPublishRequest,
}

/// The writes in flight, one per key at most, for a fixed number of relays.
#[derive(Debug)]
pub struct InflightPublishRequests {
    relays_count: usize,
    requests: Vec<Slot>,
}

/// The slots as pairs of a key and its write.
spec fn pairs_of(slots: Seq<Slot>) -> Seq<(Seq<char>, RequestView)> {
    slots.map_values(|slot: Slot| (slot.public_key@, slot.request@))
}

impl View for InflightPublishRequests {
    type V = Map<Seq<char>, RequestView>;

    closed spec fn view(&self) -> Map<Seq<char>, RequestView> {
        as_map(pairs_of(self.requests@))
    }
}

impl InflightPublishRequests {
    /// The number of relays that every write is sent to.
    pub closed spec fn relays(&self) -> nat {
        self.relays_count as nat
    }

    /// What holds of every registry: at most one write per key, and each of
    /// them undecided.
    #[verifier::type_invariant]
    pub closed spec fn wf(&self) -> bool {
        &&& keys_distinct(pairs_of(self.requests@))
        &&& forall|i: int|
            0 <= i < self.requests.len() ==> (#[trigger] self.requests[i]).request@.pending(
                self.relays(),
            )
    }

    /// Every write in the registry is undecided, and so counts fewer answers
    /// than there are relays, or none at all.
    pub proof fn lemma_requests_pending(self, public_key: Seq<char>)
        requires
            self.wf(),
            self@.contains_key(public_key),
        ensures
            self@[public_key].pending(self.relays()),
            self@[public_key].success_count + total_errors(self@[public_key].errors)
                <= self.relays(),
            self@[public_key].success_count < majority(self.relays()),
    {
        let pairs = pairs_of(self.requests@);
        let i = choose|i: int| holds_at(pairs, public_key, i);
        assert(holds_at(pairs, public_key, i));
        lemma_found(pairs, i);
        assert(self.requests[i].request@.pending(self.relays()));
    }

    /// An empty registry for `relays_count` relays.
    pub fn new(relays_count: usize) -> (registry: Self)
        ensures
            registry.wf(),
            registry.relays() == relays_count,
            registry@ == Map::<Seq<char>, RequestView>::empty(),
    {
        let registry = InflightPublishRequests { relays_count, requests: Vec::new() };
        assert(registry@ =~= Map::<Seq<char>, RequestView>::empty());
        registry
    }

    /// The number of relays that every write is sent to.
    pub fn relays_count(&self) -> (n: usize)
        ensures
            n == self.relays(),
    {
        self.relays_count
    }

    /// The number of relays whose agreement decides a write.
    pub fn majority(&self) -> (m: usize)
        ensures
            m == majority(self.relays()),
            m == self.relays() / 2 + 1,
    {
        self.relays_count / 2 + 1
    }

    /// Whether no write is in flight.
    pub fn is_empty(&self) -> (empty: bool)
        ensures
            empty == (self@ == Map::<Seq<char>, RequestView>::empty()),
    {
        proof {
            use_type_invariant(self);
            if self.requests.len() == 0 {
                assert(self@ =~= Map::<Seq<char>, RequestView>::empty());
            } else {
                lemma_found(pairs_of(self.requests@), 0);
            }
        }
        self.requests.len() == 0
    }

    /// Whether a write for `public_key` is in flight.
    pub fn contains(&self, public_key: &PublicKey) -> (found: bool)
        ensures
            found == self@.contains_key(public_key@),
    {
        match self.find(public_key) {
            Some(_) => true,
            None => false,
        }
    }

    /// The record that is in flight for `public_key`, if there is one.
    pub fn admitted(&self, public_key: &PublicKey) -> (record: Option<SignedPacket>)
        ensures
            match record {
                Some(record) => self@.contains_key(public_key@) && record@
                    == self@[public_key@].signed_packet,
                None => !self@.contains_key(public_key@),
            },
    {
        match self.find(public_key) {
            Some(request) => Some(request.signed_packet.clone()),
            None => None,
        }
    }

    /// The number of relays that have accepted the write of `public_key`, or
    /// `None` where the key has no write in flight.
    pub fn success_count(&self, public_key: &PublicKey) -> (count: Option<usize>)
        ensures
            match count {
                Some(count) => self@.contains_key(public_key@) && count
                    == self@[public_key@].success_count,
                None => !self@.contains_key(public_key@),
            },
    {
        match self.find(public_key) {
            Some(request) => Some(request.success_count),
            None => None,
        }
    }

    /// The number of relays that have reported `error` for the write of
    /// `public_key`, or `None` where the key has no write in flight.
    pub fn error_count(&self, public_key: &PublicKey, error: PublishError) -> (count: Option<usize>)
        ensures
            match count {
                Some(count) => self@.contains_key(public_key@) && count == count_of(
                    self@[public_key@].errors,
                    error,
                ),
                None => !self@.contains_key(public_key@),
            },
    {
        match self.find(public_key) {
            Some(request) => Some(request.errors.count(error)),
            None => None,
        }
    }

    /// Where the write of `public_key` stands in the list, if the key has one.
    fn position(&self, public_key: &PublicKey) -> (found: Option<usize>)
        ensures
            match found {
                Some(i) => {
                    &&& holds_at(pairs_of(self.requests@), public_key@, i as int)
                    &&& self@.contains_key(public_key@)
                    &&& self@[public_key@] == self.requests[i as int].request@
                },
                None => !self@.contains_key(public_key@),
            },
    {
        proof {
            use_type_invariant(self);
        }
        let mut i: usize = 0;
        while i < self.requests.len()
            invariant
                i <= self.requests.len(),
                keys_distinct(pairs_of(self.requests@)),
                forall|j: int| 0 <= j < i ==> !holds_at(pairs_of(self.requests@), public_key@, j),
            decreases self.requests.len() - i,
        {
            if self.requests[i].public_key == *public_key {
                proof {
                    lemma_found(pairs_of(self.requests@), i as int);
                }
                return Some(i);
            }
            i += 1;
        }
        None
    }

    /// The write of `public_key`, if the key has one.
    fn find(&self, public_key: &PublicKey) -> (found: Option<&InflightPublishRequest>)
        ensures
            match found {
                Some(request) => self@.contains_key(public_key@) && request@
                    == self@[public_key@],
                None => !self@.contains_key(public_key@),
            },
    {
        match self.position(public_key) {
            Some(i) => Some(&self.requests[i].request),
            None => None,
        }
    }

    /// Takes the writes out of the registry, to be put back once one of them
    /// has been changed: the registry left behind is empty, and so is whole.
    fn take_requests(&mut self) -> (requests: Vec<Slot>)
        ensures
            requests@ == old(self).requests@,
            final(self).requests@.len() == 0,
            final(self).relays_count == old(self).relays_count,
    {
        let mut requests: Vec<Slot> = Vec::new();
        std::mem::swap(&mut requests, &mut self.requests);
        requests
    }

    /// Tells whether a publish of `signed_packet` under `public_key` would be
    /// let through as the registry stands, and with which conflict it would be
    /// refused. Nothing changes.
    pub fn would_admit(
        &self,
        public_key: &PublicKey,
        signed_packet: &SignedPacket,
        cas: Option<Timestamp>,
    ) -> (admitted: Result<(), PublishError>)
        ensures
            admitted == admission(self@, public_key@, signed_packet@, cas),
    {
        match self.find(public_key) {
            Some(inflight) => inflight.judge(signed_packet, cas),
            None => Ok(()),
        }
    }

    /// Asks to publish `signed_packet` under `public_key`.
    ///
    /// A key without a write in flight gets this one. Otherwise nothing
    /// changes, and the request is let through if the record is the one in
    /// flight, or is more recent and `cas` names the timestamp of the one in
    /// flight; it is refused with the conflict that [`admission`] names in
    /// every other case.
    pub fn start_request(
        &mut self,
        public_key: &PublicKey,
        signed_packet: &SignedPacket,
        cas: Option<Timestamp>,
    ) -> (admitted: Result<(), PublishError>)
        ensures
            final(self).wf(),
            final(self).relays() == old(self).relays(),
            admitted == admission(old(self)@, public_key@, signed_packet@, cas),
            final(self)@ == after_start(old(self)@, public_key@, signed_packet@),
    {
        proof {
            use_type_invariant(&*self);
        }
        if let Some(inflight) = self.find(public_key) {
            return inflight.judge(signed_packet, cas);
        }
        let slot = Slot {
            public_key: public_key.clone(),
            request: InflightPublishRequest {
                signed_packet: signed_packet.clone(),
                success_count: 0,
                errors: ErrorTally::new(),
            },
        };
        assert(slot.request@ == RequestView::fresh(signed_packet@));
        let mut requests = self.take_requests();
        proof {
            lemma_added(pairs_of(requests@), (slot.public_key@, slot.request@));
            assert(pairs_of(requests@.push(slot)) =~= pairs_of(requests@).push(
                (slot.public_key@, slot.request@),
            ));
        }
        requests.push(slot);
        self.requests = requests;
        Ok(())
    }

    /// Counts one relay's answer for the write of `public_key`.
    ///
    /// Returns `Ok(true)` when the write is now accepted, an error when it has
    /// now failed, and `Ok(false)` while it is undecided. A decided write
    /// leaves the registry. An answer for a key without a write in flight
    /// changes nothing and returns `Ok(false)`.
    pub fn add_result(&mut self, public_key: &PublicKey, result: Result<(), PublishError>) -> (verdict:
        Result<bool, PublishError>)
        ensures
            final(self).wf(),
            final(self).relays() == old(self).relays(),
            verdict == result_verdict(old(self)@, public_key@, result, old(self).relays()),
            final(self)@ == after_result(old(self)@, public_key@, result, old(self).relays()),
    {
        match result {
            Ok(_) => self.add_success(public_key),
            Err(error) => self.add_error(public_key, error),
        }
    }

    /// Counts a relay's acceptance: [`Self::add_result`] with `Ok(())`.
    pub fn add_success(&mut self, public_key: &PublicKey) -> (verdict: Result<bool, PublishError>)
        ensures
            final(self).wf(),
            final(self).relays() == old(self).relays(),
            verdict == result_verdict(old(self)@, public_key@, Ok(()), old(self).relays()),
            final(self)@ == after_result(old(self)@, public_key@, Ok(()), old(self).relays()),
    {
        self.count_answer(public_key, Ok(()))
    }

    /// Counts a relay's failure: [`Self::add_result`] with `Err(error)`.
    pub fn add_error(&mut self, public_key: &PublicKey, error: PublishError) -> (verdict: Result<
        bool,
        PublishError,
    >)
        ensures
            final(self).wf(),
            final(self).relays() == old(self).relays(),
            verdict == result_verdict(old(self)@, public_key@, Err(error), old(self).relays()),
            final(self)@ == after_result(old(self)@, public_key@, Err(error), old(self).relays()),
    {
        self.count_answer(public_key, Err(error))
    }

    /// Takes the write of `public_key` out, counts `result` for it, and puts
    /// it back unless the count decides it.
    fn count_answer(&mut self, public_key: &PublicKey, result: Result<(), PublishError>) -> (verdict:
        Result<bool, PublishError>)
        ensures
            final(self).wf(),
            final(self).relays() == old(self).relays(),
            verdict == result_verdict(old(self)@, public_key@, result, old(self).relays()),
            final(self)@ == after_result(old(self)@, public_key@, result, old(self).relays()),
    {
        proof {
            use_type_invariant(&*self);
        }
        let i = match self.position(public_key) {
            Some(i) => i,
            None => {
                return Ok(false);
            },
        };
        let majority = self.majority();
        let mut requests = self.take_requests();
        let ghost before = requests@[i as int].request@;
        proof {
            lemma_removed(pairs_of(requests@), i as int);
            assert(pairs_of(requests@.remove(i as int)) =~= pairs_of(requests@).remove(i as int));
        }
        let mut slot = requests.remove(i);
        // Only the answer just counted can have brought a majority about.
        let by_majority: Option<Result<bool, PublishError>> = match result {
            Ok(_) => {
                slot.request.success_count = slot.request.success_count + 1;
                if slot.request.success_count >= majority {
                    Some(Ok(true))
                } else {
                    None
                }
            },
            Err(error) => {
                let count = slot.request.errors.record(error);
                if count >= majority && error.conflict_class() {
                    Some(Err(error))
                } else {
                    None
                }
            },
        };
        let ghost counted = slot.request@;
        proof {
            assert(counted == before.with_result(result));
            lemma_pending_kept(before, result, self.relays());
            match result {
                Ok(_) => lemma_verdict_after_success(before, self.relays()),
                Err(error) => lemma_verdict_after_error(before, error, self.relays()),
            }
        }
        let verdict = match by_majority {
            Some(verdict) => verdict,
            None => {
                if self.done(&slot.request) {
                    Err(slot.request.errors.most_common())
                } else {
                    proof {
                        lemma_added(pairs_of(requests@), (slot.public_key@, counted));
                        assert(pairs_of(requests@.push(slot)) =~= pairs_of(requests@).push(
                            (slot.public_key@, counted),
                        ));
                        assert(requests@.push(slot)[requests@.len() as int] == slot);
                        assert(old(self)@.remove(public_key@).insert(public_key@, counted)
                            =~= old(self)@.insert(public_key@, counted));
                    }
                    requests.push(slot);
                    Ok(false)
                }
            },
        };
        self.requests = requests;
        verdict
    }

    /// Whether every relay has answered for `request`.
    fn done(&self, request: &InflightPublishRequest) -> (all: bool)
        requires
            request@.reported() <= usize::MAX,
        ensures
            all == (request@.reported() >= self.relays()),
    {
        request.errors.total() + request.success_count >= self.relays_count
    }
}

} // verus!
