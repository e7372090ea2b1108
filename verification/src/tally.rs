//! The errors that relays reported for one write, counted by kind.

use vstd::prelude::*;

use crate::error::{ConcurrencyError, PublishError, QueryError};
use crate::keyed::{as_map, holds_at, keys_distinct, lemma_added, lemma_found, lemma_replaced};

verus! {

/// How many relays reported `error`, where `counts` holds the count of every
/// error that was reported.
pub open spec fn count_of(counts: Map<PublishError, nat>, error: PublishError) -> nat {
    if counts.contains_key(error) {
        counts[error]
    } else {
        0
    }
}

/// The counts after one more relay reported `error`.
pub open spec fn with_error(counts: Map<PublishError, nat>, error: PublishError) -> Map<
    PublishError,
    nat,
> {
    counts.insert(error, count_of(counts, error) + 1)
}

/// How many relays reported an error, of whatever kind.
pub open spec fn total_errors(counts: Map<PublishError, nat>) -> nat {
    count_of(counts, PublishError::Concurrency(ConcurrencyError::NotMostRecent)) + count_of(
        counts,
        PublishError::Concurrency(ConcurrencyError::CasFailed),
    ) + count_of(counts, PublishError::Concurrency(ConcurrencyError::ConflictRisk)) + count_of(
        counts,
        PublishError::Query(QueryError::Unclassified),
    ) + count_of(counts, PublishError::Query(QueryError::Timeout))
}

/// The error that most relays reported.
///
/// Among errors that were reported equally often, the one that says most
/// about the record goes first: not most recent, compare-and-swap failed,
/// risk of conflict, unclassified, timeout.
pub open spec fn most_common(counts: Map<PublishError, nat>) -> PublishError {
    let not_most_recent = count_of(
        counts,
        PublishError::Concurrency(ConcurrencyError::NotMostRecent),
    );
    let cas_failed = count_of(counts, PublishError::Concurrency(ConcurrencyError::CasFailed));
    let conflict_risk = count_of(counts, PublishError::Concurrency(ConcurrencyError::ConflictRisk));
    let unclassified = count_of(counts, PublishError::Query(QueryError::Unclassified));
    let timeout = count_of(counts, PublishError::Query(QueryError::Timeout));
    if not_most_recent >= cas_failed && not_most_recent >= conflict_risk && not_most_recent
        >= unclassified && not_most_recent >= timeout {
        PublishError::Concurrency(ConcurrencyError::NotMostRecent)
    } else if cas_failed >= conflict_risk && cas_failed >= unclassified && cas_failed >= timeout {
        PublishError::Concurrency(ConcurrencyError::CasFailed)
    } else if conflict_risk >= unclassified && conflict_risk >= timeout {
        PublishError::Concurrency(ConcurrencyError::ConflictRisk)
    } else if unclassified >= timeout {
        PublishError::Query(QueryError::Unclassified)
    } else {
        PublishError::Query(QueryError::Timeout)
    }
}

/// One more report of `error` adds one to its count and to the total, and
/// leaves the count of every `other` error as it is.
pub proof fn lemma_with_error(counts: Map<PublishError, nat>, error: PublishError, other: PublishError)
    ensures
        count_of(with_error(counts, error), error) == count_of(counts, error) + 1,
        other != error ==> count_of(with_error(counts, error), other) == count_of(counts, other),
        total_errors(with_error(counts, error)) == total_errors(counts) + 1,
{
}

/// No error was reported more often than the most common one, and the most
/// common one was reported if any was.
pub proof fn lemma_most_common(counts: Map<PublishError, nat>, other: PublishError)
    ensures
        count_of(counts, other) <= count_of(counts, most_common(counts)),
        total_errors(counts) > 0 ==> count_of(counts, most_common(counts)) >= 1,
{
}

/// The reports of two different errors are both part of the total.
pub proof fn lemma_two_errors_within_total(
    counts: Map<PublishError, nat>,
    first: PublishError,
    second: PublishError,
)
    ensures
        count_of(counts, first) <= total_errors(counts),
        first != second ==> count_of(counts, first) + count_of(counts, second) <= total_errors(
            counts,
        ),
{
}

/// One kind of error and the number of relays that reported it.
#[derive(Clone, Copy, Debug, PartialEq, Eq, Structural)]
struct ErrorCount {
    error: PublishError,
    count: usize,
}

/// The entries as pairs of an error and its count.
spec fn pairs_of(entries: Seq<ErrorCount>) -> Seq<(PublishError, nat)> {
    entries.map_values(|entry: ErrorCount| (entry.error, entry.count as nat))
}

/// The errors reported for one write: one count for each kind of error that
/// was reported.
#[derive(Debug)]
pub struct ErrorTally {
    entries: Vec<ErrorCount>,
}

impl View for ErrorTally {
    type V = Map<PublishError, nat>;

    closed spec fn view(&self) -> Map<PublishError, nat> {
        as_map(pairs_of(self.entries@))
    }
}

impl ErrorTally {
    /// What holds of every tally: each kind of error has one entry, and the
    /// total can be told.
    #[verifier::type_invariant]
    spec fn wf(&self) -> bool {
        &&& keys_distinct(pairs_of(self.entries@))
        &&& total_errors(self@) <= usize::MAX
    }

    /// A tally without a report.
    pub fn new() -> (tally: Self)
        ensures
            tally@ == Map::<PublishError, nat>::empty(),
    {
        let tally = ErrorTally { entries: Vec::new() };
        assert(tally@ =~= Map::<PublishError, nat>::empty());
        tally
    }

    fn position(&self, error: PublishError) -> (found: Option<usize>)
        ensures
            match found {
                Some(i) => holds_at(pairs_of(self.entries@), error, i as int),
                None => !self@.contains_key(error),
            },
    {
        let mut i: usize = 0;
        while i < self.entries.len()
            invariant
                i <= self.entries.len(),
                forall|j: int| 0 <= j < i ==> !holds_at(pairs_of(self.entries@), error, j),
            decreases self.entries.len() - i,
        {
            if self.entries[i].error == error {
                return Some(i);
            }
            i += 1;
        }
        None
    }

    /// How many relays reported `error`.
    pub fn count(&self, error: PublishError) -> (count: usize)
        ensures
            count == count_of(self@, error),
    {
        proof {
            use_type_invariant(self);
        }
        match self.position(error) {
            Some(i) => {
                proof {
                    lemma_found(pairs_of(self.entries@), i as int);
                }
                self.entries[i].count
            },
            None => 0,
        }
    }

    /// Counts one more report of `error` and returns how often it has now
    /// been reported.
    pub fn record(&mut self, error: PublishError) -> (count: usize)
        requires
            total_errors(old(self)@) < usize::MAX,
        ensures
            final(self)@ == with_error(old(self)@, error),
            count == count_of(final(self)@, error),
    {
        proof {
            use_type_invariant(&*self);
            lemma_with_error(self@, error, error);
            lemma_two_errors_within_total(self@, error, error);
        }
        let found = self.position(error);
        let mut entries: Vec<ErrorCount> = Vec::new();
        std::mem::swap(&mut entries, &mut self.entries);
        let count: usize = match found {
            Some(i) => {
                proof {
                    lemma_found(pairs_of(entries@), i as int);
                }
                let count: usize = entries[i].count + 1;
                proof {
                    lemma_replaced(pairs_of(entries@), i as int, count as nat);
                    assert(pairs_of(entries@.update(i as int, ErrorCount { error, count }))
                        =~= pairs_of(entries@).update(i as int, (error, count as nat)));
                }
                entries.set(i, ErrorCount { error, count });
                count
            },
            None => {
                proof {
                    lemma_added(pairs_of(entries@), (error, 1nat));
                    assert(pairs_of(entries@.push(ErrorCount { error, count: 1 })) =~= pairs_of(
                        entries@,
                    ).push((error, 1nat)));
                }
                entries.push(ErrorCount { error, count: 1 });
                1
            },
        };
        self.entries = entries;
        count
    }

    /// How many relays reported an error.
    pub fn total(&self) -> (total: usize)
        ensures
            total == total_errors(self@),
    {
        proof {
            use_type_invariant(self);
        }
        self.count(PublishError::Concurrency(ConcurrencyError::NotMostRecent)) + self.count(
            PublishError::Concurrency(ConcurrencyError::CasFailed),
        ) + self.count(PublishError::Concurrency(ConcurrencyError::ConflictRisk)) + self.count(
            PublishError::Query(QueryError::Unclassified),
        ) + self.count(PublishError::Query(QueryError::Timeout))
    }

    /// The error that most relays reported, by the order of [`most_common`]
    /// among equals.
    pub fn most_common(&self) -> (error: PublishError)
        ensures
            error == most_common(self@),
    {
        let not_most_recent = self.count(PublishError::Concurrency(ConcurrencyError::NotMostRecent));
        let cas_failed = self.count(PublishError::Concurrency(ConcurrencyError::CasFailed));
        let conflict_risk = self.count(PublishError::Concurrency(ConcurrencyError::ConflictRisk));
        let unclassified = self.count(PublishError::Query(QueryError::Unclassified));
        let timeout = self.count(PublishError::Query(QueryError::Timeout));
        if not_most_recent >= cas_failed && not_most_recent >= conflict_risk && not_most_recent
            >= unclassified && not_most_recent >= timeout {
            PublishError::Concurrency(ConcurrencyError::NotMostRecent)
        } else if cas_failed >= conflict_risk && cas_failed >= unclassified && cas_failed
            >= timeout {
            PublishError::Concurrency(ConcurrencyError::CasFailed)
        } else if conflict_risk >= unclassified && conflict_risk >= timeout {
            PublishError::Concurrency(ConcurrencyError::ConflictRisk)
        } else if unclassified >= timeout {
            PublishError::Query(QueryError::Unclassified)
        } else {
            PublishError::Query(QueryError::Timeout)
        }
    }
}

} // verus!
