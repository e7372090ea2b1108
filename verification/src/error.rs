//! The closed set of failures that a publish can end in.

use vstd::prelude::*;

verus! {

/// A relay could not be asked, or answered with something that is no verdict
/// on the record.
#[derive(Clone, Copy, Debug, PartialEq, Eq, Hash, Structural)]
pub enum QueryError {
    /// No answer arrived within the time allowed for the request.
    Timeout,
    /// The relay answered with an error status that says nothing about the
    /// record's freshness or the write's precondition.
    Unclassified,
}

/// The write lost against another version of the same key's record.
#[derive(Clone, Copy, Debug, PartialEq, Eq, Hash, Structural)]
pub enum ConcurrencyError {
    /// A newer record was offered without a compare-and-swap token while an
    /// older write for the key was still undecided.
    ConflictRisk,
    /// A record at least as recent is already known.
    NotMostRecent,
    /// The compare-and-swap token does not match the record it was meant for.
    CasFailed,
}

/// Why a publish failed.
#[derive(Clone, Copy, Debug, PartialEq, Eq, Hash, Structural)]
pub enum PublishError {
    Query(QueryError),
    Concurrency(ConcurrencyError),
}

impl PublishError {
    /// Errors that, once reported by a majority of relays, rule out that the
    /// write can still succeed.
    pub open spec fn is_conflict_class(self) -> bool {
        self == PublishError::Concurrency(ConcurrencyError::NotMostRecent)
            || self == PublishError::Concurrency(ConcurrencyError::CasFailed)
    }

    /// Tells whether a majority of this error settles the publish.
    pub fn conflict_class(&self) -> (r: bool)
        ensures
            r == self.is_conflict_class(),
    {
        match self {
            PublishError::Concurrency(ConcurrencyError::NotMostRecent) => true,
            PublishError::Concurrency(ConcurrencyError::CasFailed) => true,
            _ => false,
        }
    }
}

} // verus!
