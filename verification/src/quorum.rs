//! When a write counts as accepted: the rules of admission and of the vote,
//! stated over plain values.
//!
//! A write goes to every relay, and more than half of them decide it. The
//! registry of writes in flight carries these rules out; here they are said
//! and what follows from them is proved.

use vstd::prelude::*;

use crate::error::{ConcurrencyError, PublishError};
use crate::record::{SignedPacketView, Timestamp};
use crate::tally::{
    count_of, lemma_most_common, lemma_two_errors_within_total, lemma_with_error, most_common,
    total_errors, with_error,
};

verus! {

/// The number of relays that decides a write: more than half of them.
pub open spec fn majority(relays: nat) -> nat {
    relays / 2 + 1
}

/// One write in flight, as plain values: the record, the number of relays
/// that accepted it, and for each error the number of relays that reported
/// it.
pub struct RequestView {
    pub signed_packet: SignedPacketView,
    pub success_count: nat,
    pub errors: Map<PublishError, nat>,
}

impl RequestView {
    /// A write that no relay has answered yet.
    pub open spec fn fresh(signed_packet: SignedPacketView) -> RequestView {
        RequestView { signed_packet, success_count: 0, errors: Map::empty() }
    }

    /// How many relays have answered.
    pub open spec fn reported(self) -> nat {
        self.success_count + total_errors(self.errors)
    }

    /// The counts after one more relay has answered with `result`.
    pub open spec fn with_result(self, result: Result<(), PublishError>) -> RequestView {
        match result {
            Ok(_) => RequestView { success_count: self.success_count + 1, ..self },
            Err(error) => RequestView { errors: with_error(self.errors, error), ..self },
        }
    }

    /// What the counts say about the write among `relays` relays.
    ///
    /// `Ok(true)`: a majority accepted it. `Err(e)`: it failed, either because
    /// a majority reported the conflict `e`, or because every relay has
    /// answered without a majority of successes, and `e` is the most common
    /// error. `Ok(false)`: not decided yet.
    pub open spec fn verdict(self, relays: nat) -> Result<bool, PublishError> {
        let not_most_recent = PublishError::Concurrency(ConcurrencyError::NotMostRecent);
        let cas_failed = PublishError::Concurrency(ConcurrencyError::CasFailed);
        if self.success_count >= majority(relays) {
            Ok(true)
        } else if count_of(self.errors, not_most_recent) >= majority(relays) {
            Err(not_most_recent)
        } else if count_of(self.errors, cas_failed) >= majority(relays) {
            Err(cas_failed)
        } else if self.reported() >= relays {
            Err(most_common(self.errors))
        } else {
            Ok(false)
        }
    }

    /// What holds of every write that the registry keeps: its counts have not
    /// decided it.
    pub open spec fn pending(self, relays: nat) -> bool {
        &&& self.success_count < majority(relays)
        &&& count_of(self.errors, PublishError::Concurrency(ConcurrencyError::NotMostRecent))
            < majority(relays)
        &&& count_of(self.errors, PublishError::Concurrency(ConcurrencyError::CasFailed))
            < majority(relays)
        &&& (self.reported() == 0 || self.reported() < relays)
    }

    /// The counts after the relays have answered with `answers`, one after
    /// the other.
    pub open spec fn with_results(self, answers: Seq<Result<(), PublishError>>) -> RequestView
        decreases answers.len(),
    {
        if answers.len() == 0 {
            self
        } else {
            self.with_result(answers[0]).with_results(answers.drop_first())
        }
    }

    /// The result of the publish as the relays answer with `answers`, one
    /// after the other: the verdict of the first answer that decides, and
    /// `Ok(false)` if none does.
    pub open spec fn first_verdict(
        self,
        answers: Seq<Result<(), PublishError>>,
        relays: nat,
    ) -> Result<bool, PublishError>
        decreases answers.len(),
    {
        if answers.len() == 0 {
            Ok(false)
        } else {
            let counted = self.with_result(answers[0]);
            if counted.verdict(relays) == Ok::<bool, PublishError>(false) {
                counted.first_verdict(answers.drop_first(), relays)
            } else {
                counted.verdict(relays)
            }
        }
    }
}

/// Two majorities cannot stand side by side: while no more answers are
/// counted than there are relays, the successes and an error cannot both
/// have a majority, nor can two different errors. So it does not matter in
/// which order [`RequestView::verdict`] looks at them.
pub proof fn lemma_single_majority(
    request: RequestView,
    relays: nat,
    first: PublishError,
    second: PublishError,
)
    requires
        request.reported() <= relays,
    ensures
        !(request.success_count >= majority(relays) && count_of(request.errors, first)
            >= majority(relays)),
        first != second ==> !(count_of(request.errors, first) >= majority(relays) && count_of(
            request.errors,
            second,
        ) >= majority(relays)),
{
    lemma_two_errors_within_total(request.errors, first, second);
}

/// After a success is counted for an undecided write, only the successes can
/// have reached a majority: the write is accepted on a majority of
/// successes, fails with the most common error when that was the last
/// relay, and stays undecided otherwise.
pub proof fn lemma_verdict_after_success(before: RequestView, relays: nat)
    requires
        before.pending(relays),
    ensures
        ({
            let counted = before.with_result(Ok(()));
            counted.verdict(relays) == if counted.success_count >= majority(relays) {
                Ok::<bool, PublishError>(true)
            } else if counted.reported() >= relays {
                Err(most_common(counted.errors))
            } else {
                Ok(false)
            }
        }),
{
}

/// After an error is counted for an undecided write, only that error can have
/// reached a majority: the write fails with it if it is a conflict and a
/// majority reported it, fails with the most common error when that was the
/// last relay, and stays undecided otherwise.
pub proof fn lemma_verdict_after_error(before: RequestView, error: PublishError, relays: nat)
    requires
        before.pending(relays),
    ensures
        ({
            let counted = before.with_result(Err(error));
            counted.verdict(relays) == if error.is_conflict_class() && count_of(
                counted.errors,
                error,
            ) >= majority(relays) {
                Err::<bool, PublishError>(error)
            } else if counted.reported() >= relays {
                Err(most_common(counted.errors))
            } else {
                Ok(false)
            }
        }),
{
    lemma_with_error(before.errors, error, PublishError::Concurrency(ConcurrencyError::NotMostRecent));
    lemma_with_error(before.errors, error, PublishError::Concurrency(ConcurrencyError::CasFailed));
}

/// Counting an answer for a write of the registry adds one to the answers
/// counted, and decides the write or leaves it as the registry keeps its
/// writes: undecided, with fewer answers counted than there are relays.
pub proof fn lemma_pending_kept(before: RequestView, result: Result<(), PublishError>, relays: nat)
    requires
        before.pending(relays),
    ensures
        before.with_result(result).reported() == before.reported() + 1,
        before.with_result(result).verdict(relays) == Ok::<bool, PublishError>(false)
            ==> before.with_result(result).pending(relays),
{
    match result {
        Ok(_) => {},
        Err(error) => {
            lemma_with_error(
                before.errors,
                error,
                PublishError::Concurrency(ConcurrencyError::NotMostRecent),
            );
            lemma_with_error(
                before.errors,
                error,
                PublishError::Concurrency(ConcurrencyError::CasFailed),
            );
        },
    }
}

/// The answer that brings the count to the number of relays decides the
/// write. As a write in the registry counts fewer answers than there are
/// relays, no write waits for more answers than there are relays.
pub proof fn lemma_last_answer_decides(
    before: RequestView,
    result: Result<(), PublishError>,
    relays: nat,
)
    requires
        before.pending(relays),
        before.reported() + 1 >= relays,
    ensures
        before.with_result(result).verdict(relays) != Ok::<bool, PublishError>(false),
{
    lemma_pending_kept(before, result, relays);
}

/// A write is accepted on a majority of successes only, and fails only with
/// an error that a relay reported for it: a conflict that a majority
/// reported or, once every relay has answered, an error than which no
/// `other` was reported more often.
pub proof fn lemma_verdict_is_founded(
    before: RequestView,
    result: Result<(), PublishError>,
    relays: nat,
    other: PublishError,
)
    requires
        before.pending(relays),
    ensures
        ({
            let counted = before.with_result(result);
            match counted.verdict(relays) {
                Ok(accepted) => accepted <==> counted.success_count >= majority(relays),
                Err(error) => {
                    &&& counted.success_count < majority(relays)
                    &&& count_of(counted.errors, error) >= 1
                    &&& {
                        ||| error.is_conflict_class() && count_of(counted.errors, error)
                            >= majority(relays)
                        ||| counted.reported() >= relays && count_of(counted.errors, other)
                            <= count_of(counted.errors, error)
                    }
                },
            }
        }),
{
    let counted = before.with_result(result);
    lemma_pending_kept(before, result, relays);
    lemma_most_common(counted.errors, other);
    match result {
        Ok(_) => {
            lemma_verdict_after_success(before, relays);
        },
        Err(error) => {
            lemma_verdict_after_error(before, error, relays);
        },
    }
}

/// The verdict rests on the counts alone: writes with the same counts have
/// the same verdict, in whatever order their answers came.
pub proof fn lemma_verdict_by_counts(first: RequestView, second: RequestView, relays: nat)
    requires
        first.success_count == second.success_count,
        forall|error: PublishError|
            count_of(first.errors, error) == count_of(second.errors, error),
    ensures
        first.verdict(relays) == second.verdict(relays),
{
}

/// The counts do not depend on the order of two answers.
pub proof fn lemma_answers_commute(
    request: RequestView,
    first: Result<(), PublishError>,
    second: Result<(), PublishError>,
    error: PublishError,
)
    ensures
        request.with_result(first).with_result(second).success_count == request.with_result(
            second,
        ).with_result(first).success_count,
        count_of(request.with_result(first).with_result(second).errors, error) == count_of(
            request.with_result(second).with_result(first).errors,
            error,
        ),
{
    if first is Err {
        lemma_with_error(request.errors, first->Err_0, error);
        if second is Err {
            lemma_with_error(with_error(request.errors, first->Err_0), second->Err_0, error);
        }
    }
    if second is Err {
        lemma_with_error(request.errors, second->Err_0, error);
        if first is Err {
            lemma_with_error(with_error(request.errors, second->Err_0), first->Err_0, error);
        }
    }
}

/// Counting answers only adds: no count falls, and the answers counted grow
/// by the number of `answers`.
pub proof fn lemma_counts_grow(
    request: RequestView,
    answers: Seq<Result<(), PublishError>>,
    error: PublishError,
)
    ensures
        request.with_results(answers).success_count >= request.success_count,
        count_of(request.with_results(answers).errors, error) >= count_of(request.errors, error),
        request.with_results(answers).reported() == request.reported() + answers.len(),
    decreases answers.len(),
{
    if answers.len() > 0 {
        let counted = request.with_result(answers[0]);
        if answers[0] is Err {
            lemma_with_error(request.errors, answers[0]->Err_0, error);
        }
        lemma_counts_grow(counted, answers.drop_first(), error);
    }
}

/// Once every relay has answered, the result of the publish is what the
/// counts of all answers say: the publish is decided, and the order in which
/// the answers came does not matter.
pub proof fn lemma_result_by_counts(
    request: RequestView,
    answers: Seq<Result<(), PublishError>>,
    relays: nat,
)
    requires
        request.pending(relays),
        answers.len() >= 1,
        request.reported() + answers.len() == relays,
    ensures
        request.first_verdict(answers, relays) == request.with_results(answers).verdict(relays),
        request.first_verdict(answers, relays) != Ok::<bool, PublishError>(false),
    decreases answers.len(),
{
    let not_most_recent = PublishError::Concurrency(ConcurrencyError::NotMostRecent);
    let cas_failed = PublishError::Concurrency(ConcurrencyError::CasFailed);
    let counted = request.with_result(answers[0]);
    let rest = answers.drop_first();
    let all = request.with_results(answers);
    lemma_pending_kept(request, answers[0], relays);
    lemma_counts_grow(counted, rest, not_most_recent);
    lemma_counts_grow(counted, rest, cas_failed);
    if counted.verdict(relays) == Ok::<bool, PublishError>(false) {
        lemma_result_by_counts(counted, rest, relays);
    } else {
        lemma_single_majority(all, relays, not_most_recent, cas_failed);
        lemma_single_majority(all, relays, cas_failed, not_most_recent);
        match answers[0] {
            Ok(_) => {
                lemma_verdict_after_success(request, relays);
            },
            Err(error) => {
                lemma_verdict_after_error(request, error, relays);
            },
        }
        if counted.reported() >= relays {
            assert(rest.len() == 0);
            assert(all == counted);
        }
    }
}

/// Whether `signed_packet` may be published while `admitted` is in flight for
/// its key: it may if it is the same record, or if it is more recent and
/// `cas` names the timestamp of the record in flight.
pub open spec fn admission_against(
    admitted: SignedPacketView,
    signed_packet: SignedPacketView,
    cas: Option<Timestamp>,
) -> Result<(), PublishError> {
    if signed_packet.signature == admitted.signature {
        Ok(())
    } else if !signed_packet.more_recent_than(admitted) {
        Err(PublishError::Concurrency(ConcurrencyError::NotMostRecent))
    } else {
        match cas {
            Some(expected) => if expected == admitted.timestamp {
                Ok(())
            } else {
                Err(PublishError::Concurrency(ConcurrencyError::CasFailed))
            },
            None => Err(PublishError::Concurrency(ConcurrencyError::ConflictRisk)),
        }
    }
}

/// Whether a publish of `signed_packet` may go ahead, given the writes in
/// flight: it may if its key has no write in flight, and else as
/// [`admission_against`] the record in flight says.
pub open spec fn admission(
    inflight: Map<Seq<char>, RequestView>,
    public_key: Seq<char>,
    signed_packet: SignedPacketView,
    cas: Option<Timestamp>,
) -> Result<(), PublishError> {
    if inflight.contains_key(public_key) {
        admission_against(inflight[public_key].signed_packet, signed_packet, cas)
    } else {
        Ok(())
    }
}

/// The writes in flight after a publish of `signed_packet` was requested: a
/// key without a write gets this one, everything else stays.
pub open spec fn after_start(
    inflight: Map<Seq<char>, RequestView>,
    public_key: Seq<char>,
    signed_packet: SignedPacketView,
) -> Map<Seq<char>, RequestView> {
    if inflight.contains_key(public_key) {
        inflight
    } else {
        inflight.insert(public_key, RequestView::fresh(signed_packet))
    }
}

/// A publish of the record that is already in flight for its key joins that
/// write: it is let through, whatever `cas` says, and the registry stays as
/// it is, so that no second write appears and no count changes.
pub proof fn lemma_same_record_joins(
    inflight: Map<Seq<char>, RequestView>,
    public_key: Seq<char>,
    signed_packet: SignedPacketView,
    cas: Option<Timestamp>,
)
    requires
        inflight.contains_key(public_key),
        signed_packet.signature == inflight[public_key].signed_packet.signature,
    ensures
        admission(inflight, public_key, signed_packet, cas) == Ok::<(), PublishError>(()),
        after_start(inflight, public_key, signed_packet) == inflight,
{
}

/// A publish of another record that is not more recent than the one in
/// flight for its key is refused as not the most recent, whatever `cas`
/// says, and changes nothing.
pub proof fn lemma_stale_record_refused(
    inflight: Map<Seq<char>, RequestView>,
    public_key: Seq<char>,
    signed_packet: SignedPacketView,
    cas: Option<Timestamp>,
)
    requires
        inflight.contains_key(public_key),
        signed_packet.signature != inflight[public_key].signed_packet.signature,
        !signed_packet.more_recent_than(inflight[public_key].signed_packet),
    ensures
        admission(inflight, public_key, signed_packet, cas) == Err::<(), PublishError>(
            PublishError::Concurrency(ConcurrencyError::NotMostRecent),
        ),
        after_start(inflight, public_key, signed_packet) == inflight,
{
}

/// A publish of a more recent record without a compare-and-swap token,
/// while another record is in flight for its key, is refused as a risk of
/// conflict and changes nothing.
pub proof fn lemma_newer_record_needs_cas(
    inflight: Map<Seq<char>, RequestView>,
    public_key: Seq<char>,
    signed_packet: SignedPacketView,
)
    requires
        inflight.contains_key(public_key),
        signed_packet.signature != inflight[public_key].signed_packet.signature,
        signed_packet.more_recent_than(inflight[public_key].signed_packet),
    ensures
        admission(inflight, public_key, signed_packet, None) == Err::<(), PublishError>(
            PublishError::Concurrency(ConcurrencyError::ConflictRisk),
        ),
        after_start(inflight, public_key, signed_packet) == inflight,
{
}

/// A publish of a more recent record whose compare-and-swap token is the
/// timestamp of the record in flight for its key is let through, and the
/// record in flight stays the one that is voted on.
pub proof fn lemma_newer_record_with_cas_admitted(
    inflight: Map<Seq<char>, RequestView>,
    public_key: Seq<char>,
    signed_packet: SignedPacketView,
)
    requires
        inflight.contains_key(public_key),
        signed_packet.more_recent_than(inflight[public_key].signed_packet),
    ensures
        admission(
            inflight,
            public_key,
            signed_packet,
            Some(inflight[public_key].signed_packet.timestamp),
        ) == Ok::<(), PublishError>(()),
        after_start(inflight, public_key, signed_packet) == inflight,
{
}

/// What a relay's answer for `public_key` amounts to: the verdict of the
/// key's write with that answer counted, or `Ok(false)` where the key has no
/// write in flight.
pub open spec fn result_verdict(
    inflight: Map<Seq<char>, RequestView>,
    public_key: Seq<char>,
    result: Result<(), PublishError>,
    relays: nat,
) -> Result<bool, PublishError> {
    if inflight.contains_key(public_key) {
        inflight[public_key].with_result(result).verdict(relays)
    } else {
        Ok(false)
    }
}

/// The writes in flight after a relay's answer for `public_key`: the key's
/// write has the answer counted and, where that decides it, is gone.
pub open spec fn after_result(
    inflight: Map<Seq<char>, RequestView>,
    public_key: Seq<char>,
    result: Result<(), PublishError>,
    relays: nat,
) -> Map<Seq<char>, RequestView> {
    if inflight.contains_key(public_key) {
        let counted = inflight[public_key].with_result(result);
        if counted.verdict(relays) == Ok::<bool, PublishError>(false) {
            inflight.insert(public_key, counted)
        } else {
            inflight.remove(public_key)
        }
    } else {
        inflight
    }
}

} // verus!
