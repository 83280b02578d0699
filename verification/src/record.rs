//! What is kept about one URL, and what the archiving service can answer.

use crate::time::Timestamp;
use vstd::prelude::*;

verus! {

/// The last known result of archiving one URL.
#[derive(Clone, Debug, PartialEq, Eq)]
pub struct ArchiveRecord {
    /// When the last attempt was resolved, whether it succeeded or failed.
    pub last_archived: Timestamp,
    /// The permanent address of the snapshot; present only after a success.
    pub archived_url: Option<String>,
    /// Whether the service answered with a snapshot it already had.
    pub was_existing_snapshot: bool,
}

/// An [`ArchiveRecord`] as a mathematical value.
pub ghost struct RecordView {
    pub last_archived: Timestamp,
    pub archived_url: Option<Seq<char>>,
    pub was_existing_snapshot: bool,
}

impl View for ArchiveRecord {
    type V = RecordView;

    open spec fn view(&self) -> RecordView {
        RecordView {
            last_archived: self.last_archived,
            archived_url: match self.archived_url {
                Some(u) => Some(u@),
                None => None,
            },
            was_existing_snapshot: self.was_existing_snapshot,
        }
    }
}

impl RecordView {
    /// The record of a successful attempt resolved at `now`.
    pub open spec fn success(now: Timestamp, archived_url: Seq<char>, existing: bool) -> RecordView {
        RecordView {
            last_archived: now,
            archived_url: Some(archived_url),
            was_existing_snapshot: existing,
        }
    }

    /// The record of an attempt that failed for good at `now`.
    pub open spec fn failure(now: Timestamp) -> RecordView {
        RecordView { last_archived: now, archived_url: None, was_existing_snapshot: false }
    }

    /// An attempt counts as a success exactly when it left a snapshot address.
    pub open spec fn is_success(self) -> bool {
        self.archived_url is Some
    }

    /// Only a success can stem from a snapshot that was already there.
    pub open spec fn consistent(self) -> bool {
        self.was_existing_snapshot ==> self.is_success()
    }
}

impl ArchiveRecord {
    pub fn success(now: Timestamp, archived_url: String, existing: bool) -> (r: ArchiveRecord)
        ensures
            r@ == RecordView::success(now, archived_url@, existing),
    {
        ArchiveRecord {
            last_archived: now,
            archived_url: Some(archived_url),
            was_existing_snapshot: existing,
        }
    }

    pub fn failure(now: Timestamp) -> (r: ArchiveRecord)
        ensures
            r@ == RecordView::failure(now),
    {
        ArchiveRecord { last_archived: now, archived_url: None, was_existing_snapshot: false }
    }

    pub fn is_success(&self) -> (b: bool)
        ensures
            b == self@.is_success(),
    {
        self.archived_url.is_some()
    }

    /// A copy with the same contents.
    pub fn duplicate(&self) -> (r: ArchiveRecord)
        ensures
            r@ == self@,
    {
        let archived_url = match &self.archived_url {
            Some(u) => Some(u.clone()),
            None => None,
        };
        ArchiveRecord {
            last_archived: self.last_archived,
            archived_url,
            was_existing_snapshot: self.was_existing_snapshot,
        }
    }
}

/// One answer of the archiving service to one attempt.
#[derive(Clone, Debug, PartialEq, Eq)]
pub enum ArchiveOutcome {
    /// A snapshot exists at `archived_url`, new or already there.
    Succeeded { archived_url: String, was_existing_snapshot: bool },
    /// The service asks to slow down; the attempt is to be made again.
    RateLimited,
    /// The attempt failed for a reason that trying again does not mend.
    Failed { reason: String },
}

/// An [`ArchiveOutcome`] as a mathematical value.
pub ghost enum OutcomeView {
    Succeeded { archived_url: Seq<char>, was_existing_snapshot: bool },
    RateLimited,
    Failed { reason: Seq<char> },
}

impl View for ArchiveOutcome {
    type V = OutcomeView;

    open spec fn view(&self) -> OutcomeView {
        match self {
            ArchiveOutcome::Succeeded { archived_url, was_existing_snapshot } => {
                OutcomeView::Succeeded {
                    archived_url: archived_url@,
                    was_existing_snapshot: *was_existing_snapshot,
                }
            },
            ArchiveOutcome::RateLimited => OutcomeView::RateLimited,
            ArchiveOutcome::Failed { reason } => OutcomeView::Failed { reason: reason@ },
        }
    }
}

impl OutcomeView {
    /// Whether the attempt is over: every answer but a rate limit ends it.
    pub open spec fn is_terminal(self) -> bool {
        !(self is RateLimited)
    }

    /// The record that an answer received at `now` leaves behind. Only
    /// meaningful for a terminal answer.
    pub open spec fn record(self, now: Timestamp) -> RecordView {
        match self {
            OutcomeView::Succeeded { archived_url, was_existing_snapshot } => RecordView::success(
                now,
                archived_url,
                was_existing_snapshot,
            ),
            _ => RecordView::failure(now),
        }
    }
}

} // verus!
