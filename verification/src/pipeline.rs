//! The archiving pipeline: what to do with each URL that arrives and with
//! each answer of the archiving service.
//!
//! The pipeline decides; its caller acts. The caller hands over a URL and
//! the time, makes the attempt that is asked for, hands back the answer,
//! waits as long as it is told to, and writes the store out when a
//! checkpoint is due.

use crate::record::{ArchiveOutcome, ArchiveRecord, OutcomeView, RecordView};
use crate::store::{fresh_in, ResultStore};
use crate::text::{trim, trimmed};
use crate::time::Timestamp;
use vstd::prelude::*;

verus! {

/// A checkpoint is due after every this many resolved attempts.
pub const CHECKPOINT_EVERY: u64 = 25;

/// Seconds to pause after a new snapshot was taken.
pub const COOLDOWN_SECS: u64 = 3;

/// Seconds to wait before an attempt that was rate-limited is made again.
pub const BACKOFF_SECS: u64 = 15;

/// What happens to a URL that arrives.
#[derive(Clone, Debug, PartialEq, Eq)]
pub enum Begin {
    /// A fresh record exists: the URL is passed over, nothing is asked of
    /// the service and the store stays as it is.
    Skip { url: String },
    /// The URL is to be submitted to the service.
    Attempt { url: String },
}

impl Begin {
    /// The normalised URL that the step is about.
    pub open spec fn url(self) -> Seq<char> {
        match self {
            Begin::Skip { url } => url@,
            Begin::Attempt { url } => url@,
        }
    }
}

/// What follows an answer of the service.
#[derive(Clone, Copy, Debug, PartialEq, Eq, Structural)]
pub enum Resolution {
    /// The URL is archived. The caller pauses for `cooldown_secs` seconds
    /// and writes the store out if `checkpoint` is set.
    Done { cooldown_secs: u64, checkpoint: bool },
    /// The service was rate-limiting. The caller waits `wait_secs` seconds
    /// and submits the same URL again.
    Retry { wait_secs: u64 },
    /// The attempt failed for good and is not made again. The caller writes
    /// the store out if `checkpoint` is set.
    Failed { checkpoint: bool },
}

/// What is done with the store when the input has ended.
#[derive(Debug)]
pub enum Final {
    /// An output path is configured: the store is written to it.
    Persist { store: ResultStore },
    /// No output path is configured: the store is printed.
    Print { store: ResultStore },
}

/// A [`Pipeline`] as a mathematical value.
pub ghost struct PipelineView {
    /// The result store.
    pub store: Map<Seq<char>, RecordView>,
    /// How many attempts have been resolved, by success or by failure.
    pub processed: nat,
    /// Whether an output path is configured, so that checkpoints are made.
    pub checkpointing: bool,
}

impl PipelineView {
    /// Whether a URL that arrives as `raw` at `now` is passed over.
    pub open spec fn skips(self, raw: Seq<char>, now: Timestamp) -> bool {
        fresh_in(self.store, trimmed(raw), now)
    }

    /// The state after the service answered `outcome` at `now` for `url`.
    pub open spec fn resolved(self, url: Seq<char>, outcome: OutcomeView, now: Timestamp) -> PipelineView {
        if outcome.is_terminal() {
            PipelineView {
                store: self.store.insert(url, outcome.record(now)),
                processed: self.processed + 1,
                checkpointing: self.checkpointing,
            }
        } else {
            self
        }
    }

    /// Whether a checkpoint is due in this state, reached by resolving an
    /// attempt.
    pub open spec fn checkpoint_due(self) -> bool {
        self.checkpointing && self.processed % (CHECKPOINT_EVERY as nat) == 0
    }

    /// What the caller is told after `outcome`, the state after it being
    /// `self`.
    pub open spec fn resolution(self, outcome: OutcomeView) -> Resolution {
        match outcome {
            OutcomeView::Succeeded { archived_url, was_existing_snapshot } => Resolution::Done {
                cooldown_secs: if was_existing_snapshot {
                    0
                } else {
                    COOLDOWN_SECS
                },
                checkpoint: self.checkpoint_due(),
            },
            OutcomeView::RateLimited => Resolution::Retry { wait_secs: BACKOFF_SECS },
            OutcomeView::Failed { reason } => Resolution::Failed { checkpoint: self.checkpoint_due() },
        }
    }
}

/// The state of one run: the store, and how far the run is from its next
/// checkpoint.
pub struct Pipeline {
    store: ResultStore,
    checkpointing: bool,
    /// Resolved attempts since the last multiple of `CHECKPOINT_EVERY`.
    cycle: u64,
    processed: Ghost<nat>,
}

impl View for Pipeline {
    type V = PipelineView;

    closed spec fn view(&self) -> PipelineView {
        PipelineView {
            store: self.store@,
            processed: self.processed@,
            checkpointing: self.checkpointing,
        }
    }
}

impl Pipeline {
    #[verifier::type_invariant]
    spec fn well_formed(&self) -> bool {
        self.cycle == self.processed@ % (CHECKPOINT_EVERY as nat)
    }

    /// A run that starts from `store`. Checkpoints are made only if
    /// `checkpointing` is set, that is if an output path is configured.
    pub fn new(store: ResultStore, checkpointing: bool) -> (p: Pipeline)
        ensures
            p@ == (PipelineView { store: store@, processed: 0, checkpointing }),
    {
        Pipeline { store, checkpointing, cycle: 0, processed: Ghost(0) }
    }

    /// The store as it stands.
    pub fn store(&self) -> (s: &ResultStore)
        ensures
            s@ == self@.store,
    {
        &self.store
    }

    /// Whether checkpoints are made.
    pub fn checkpointing(&self) -> (b: bool)
        ensures
            b == self@.checkpointing,
    {
        self.checkpointing
    }

    /// Takes a URL as it arrived: trims it, and passes it over if the store
    /// holds a fresh record for it at `now`.
    pub fn begin(&self, raw: &str, now: Timestamp) -> (step: Begin)
        ensures
            step.url() == trimmed(raw@),
            step is Skip <==> self@.skips(raw@, now),
    {
        let url = trim(raw);
        if self.store.is_fresh(url.as_str(), now) {
            Begin::Skip { url }
        } else {
            Begin::Attempt { url }
        }
    }

    /// Takes the answer that the service gave at `now` to an attempt on
    /// `url`. A success or a failure is recorded under `url` and counted; a
    /// rate limit changes nothing.
    pub fn resolve(&mut self, url: &str, outcome: &ArchiveOutcome, now: Timestamp) -> (next: Resolution)
        ensures
            final(self)@ == old(self)@.resolved(url@, outcome@, now),
            next == final(self)@.resolution(outcome@),
    {
        proof {
            use_type_invariant(&*self);
        }
        match outcome {
            ArchiveOutcome::Succeeded { archived_url, was_existing_snapshot } => {
                let record = ArchiveRecord::success(now, archived_url.clone(), *was_existing_snapshot);
                let checkpoint = self.record(url, record);
                let cooldown_secs: u64 = if *was_existing_snapshot {
                    0
                } else {
                    COOLDOWN_SECS
                };
                Resolution::Done { cooldown_secs, checkpoint }
            },
            ArchiveOutcome::RateLimited => Resolution::Retry { wait_secs: BACKOFF_SECS },
            ArchiveOutcome::Failed { reason } => {
                let checkpoint = self.record(url, ArchiveRecord::failure(now));
                Resolution::Failed { checkpoint }
            },
        }
    }

    /// [`Pipeline::begin`] at the instant that the wall clock shows, which is
    /// handed back with the step. Where the clock shows none, nothing is
    /// decided.
    pub fn begin_now(&self, raw: &str) -> (r: Option<(Begin, Timestamp)>)
        ensures
            r matches Some((step, now)) ==> {
                &&& step.url() == trimmed(raw@)
                &&& step is Skip <==> self@.skips(raw@, now)
                &&& now.secs >= 0 && now.nanos < 1_000_000_000
            },
    {
        match Timestamp::now() {
            Some(now) => Some((self.begin(raw, now), now)),
            None => None,
        }
    }

    /// [`Pipeline::resolve`] at the instant that the wall clock shows, which
    /// is handed back with the resolution. Where the clock shows none, the
    /// answer is not taken and everything stays as it is.
    pub fn resolve_now(&mut self, url: &str, outcome: &ArchiveOutcome) -> (r: Option<
        (Resolution, Timestamp),
    >)
        ensures
            match r {
                Some((next, now)) => {
                    &&& final(self)@ == old(self)@.resolved(url@, outcome@, now)
                    &&& next == final(self)@.resolution(outcome@)
                    &&& now.secs >= 0 && now.nanos < 1_000_000_000
                },
                None => final(self)@ == old(self)@,
            },
    {
        match Timestamp::now() {
            Some(now) => Some((self.resolve(url, outcome, now), now)),
            None => None,
        }
    }

    /// Records a resolved attempt and says whether a checkpoint is due.
    fn record(&mut self, url: &str, record: ArchiveRecord) -> (checkpoint: bool)
        ensures
            final(self)@ == (PipelineView {
                store: old(self)@.store.insert(url@, record@),
                processed: old(self)@.processed + 1,
                checkpointing: old(self)@.checkpointing,
            }),
            checkpoint == final(self)@.checkpoint_due(),
    {
        proof {
            use_type_invariant(&*self);
        }
        let mut store = ResultStore::new();
        core::mem::swap(&mut self.store, &mut store);
        store.upsert(url.to_owned(), record);
        let cycle: u64 = if self.cycle + 1 == CHECKPOINT_EVERY {
            0
        } else {
            self.cycle + 1
        };
        let ghost processed = self.processed@ + 1;
        let checkpointing = self.checkpointing;
        *self = Pipeline { store, checkpointing, cycle, processed: Ghost(processed) };
        checkpointing && cycle == 0
    }

    /// Ends the run and hands the store over for its last writing.
    pub fn finish(self) -> (end: Final)
        ensures
            match end {
                Final::Persist { store } => self@.checkpointing && store@ == self@.store,
                Final::Print { store } => !self@.checkpointing && store@ == self@.store,
            },
    {
        if self.checkpointing {
            Final::Persist { store: self.store }
        } else {
            Final::Print { store: self.store }
        }
    }
}

} // verus!
