//! What holds of the pipeline and the store whatever the run.

use crate::pipeline::{PipelineView, Resolution, BACKOFF_SECS, CHECKPOINT_EVERY};
use crate::record::{OutcomeView, RecordView};
use crate::text::trimmed;
use crate::time::{within_window, Timestamp};
use vstd::prelude::*;

verus! {

/// One answer of the service in the course of a run: to which URL, what,
/// and when.
pub ghost struct Answer {
    pub url: Seq<char>,
    pub outcome: OutcomeView,
    pub at: Timestamp,
}

/// The state that `answers`, taken in their order, lead to from `v`.
pub open spec fn after(v: PipelineView, answers: Seq<Answer>) -> PipelineView
    decreases answers.len(),
{
    if answers.len() == 0 {
        v
    } else {
        let last = answers.last();
        after(v, answers.drop_last()).resolved(last.url, last.outcome, last.at)
    }
}

/// How many of `answers` end an attempt.
pub open spec fn terminal_count(answers: Seq<Answer>) -> nat
    decreases answers.len(),
{
    if answers.len() == 0 {
        0
    } else {
        terminal_count(answers.drop_last()) + if answers.last().outcome.is_terminal() {
            1nat
        } else {
            0nat
        }
    }
}

/// How many checkpoints fall due while `answers` are taken from `v` on.
pub open spec fn checkpoints(v: PipelineView, answers: Seq<Answer>) -> nat
    decreases answers.len(),
{
    if answers.len() == 0 {
        0
    } else {
        checkpoints(v, answers.drop_last()) + if answers.last().outcome.is_terminal() && after(
            v,
            answers,
        ).checkpoint_due() {
            1nat
        } else {
            0nat
        }
    }
}

/// The answers among `answers` that end an attempt, in their order.
pub open spec fn terminal_only(answers: Seq<Answer>) -> Seq<Answer>
    decreases answers.len(),
{
    if answers.len() == 0 {
        answers
    } else if answers.last().outcome.is_terminal() {
        terminal_only(answers.drop_last()).push(answers.last())
    } else {
        terminal_only(answers.drop_last())
    }
}

/// Every record in `store` is consistent: only a success stems from an
/// existing snapshot.
pub open spec fn all_consistent(store: Map<Seq<char>, RecordView>) -> bool {
    forall|url: Seq<char>| store.contains_key(url) ==> (#[trigger] store[url]).consistent()
}

/// A URL whose attempt was resolved, by success or by failure, is passed
/// over when it arrives again before the freshness window has run out: no
/// second attempt is made.
pub proof fn law_resolved_url_is_passed_over(
    v: PipelineView,
    url: Seq<char>,
    outcome: OutcomeView,
    at: Timestamp,
    raw: Seq<char>,
    later: Timestamp,
)
    requires
        outcome.is_terminal(),
        trimmed(raw) == url,
        within_window(later, at),
    ensures
        v.resolved(url, outcome, at).skips(raw, later),
{
}

/// Resolving an attempt on one URL leaves the records of all others as
/// they were.
pub proof fn law_other_urls_keep_their_records(
    v: PipelineView,
    url: Seq<char>,
    outcome: OutcomeView,
    at: Timestamp,
    other: Seq<char>,
)
    requires
        other != url,
    ensures
        v.resolved(url, outcome, at).store.contains_key(other) == v.store.contains_key(other),
        v.store.contains_key(other) ==> v.resolved(url, outcome, at).store[other] == v.store[other],
{
}

/// A rate limit changes neither the store nor the count of resolved
/// attempts, and asks for the same wait every time.
pub proof fn law_rate_limit_changes_nothing(v: PipelineView, url: Seq<char>, at: Timestamp)
    ensures
        v.resolved(url, OutcomeView::RateLimited, at) == v,
        v.resolution(OutcomeView::RateLimited) == (Resolution::Retry { wait_secs: BACKOFF_SECS }),
{
}

/// However often the service rate-limits, the run ends in the state that
/// the other answers alone lead to: waiting and trying again leaves no
/// trace.
pub proof fn law_rate_limits_leave_no_trace(v: PipelineView, answers: Seq<Answer>)
    ensures
        after(v, answers) == after(v, terminal_only(answers)),
    decreases answers.len(),
{
    if answers.len() > 0 {
        let front = answers.drop_last();
        law_rate_limits_leave_no_trace(v, front);
        if answers.last().outcome.is_terminal() {
            let kept = terminal_only(front).push(answers.last());
            assert(kept.drop_last() =~= terminal_only(front));
            assert(kept.last() == answers.last());
        }
    }
}

/// A run that starts from consistent records ends with consistent records.
pub proof fn law_runs_keep_records_consistent(v: PipelineView, answers: Seq<Answer>)
    requires
        all_consistent(v.store),
    ensures
        all_consistent(after(v, answers).store),
    decreases answers.len(),
{
    if answers.len() > 0 {
        law_runs_keep_records_consistent(v, answers.drop_last());
    }
}

/// Every answer that ends an attempt leaves a record stamped with the time
/// of the answer; the record holds a snapshot address exactly when the
/// answer was a success, and only then can it stem from an existing
/// snapshot.
pub proof fn law_records_tell_success(
    v: PipelineView,
    url: Seq<char>,
    outcome: OutcomeView,
    at: Timestamp,
)
    requires
        outcome.is_terminal(),
    ensures
        v.resolved(url, outcome, at).store.contains_key(url),
        v.resolved(url, outcome, at).store[url].last_archived == at,
        v.resolved(url, outcome, at).store[url].is_success() <==> outcome is Succeeded,
        v.resolved(url, outcome, at).store[url].consistent(),
{
}

/// A record is fresh exactly while less than 180 days have passed: stale
/// at 180 days and at 180 days and a second, fresh at 179 days.
pub proof fn law_freshness_boundary(now: Timestamp, last: Timestamp)
    ensures
        within_window(now, last) <==> now.as_nanos() - last.as_nanos() < 180 * 86_400
            * 1_000_000_000,
        now.as_nanos() - last.as_nanos() == (180 * 86_400 + 1) * 1_000_000_000 ==> !within_window(
            now,
            last,
        ),
        now.as_nanos() - last.as_nanos() == 180 * 86_400 * 1_000_000_000 ==> !within_window(
            now,
            last,
        ),
        now.as_nanos() - last.as_nanos() == 179 * 86_400 * 1_000_000_000 ==> within_window(
            now,
            last,
        ),
{
}

/// Taking answers changes the count of resolved attempts by the number of
/// answers that end an attempt, and never whether checkpoints are made.
pub proof fn law_processed_counts_terminal_answers(v: PipelineView, answers: Seq<Answer>)
    ensures
        after(v, answers).processed == v.processed + terminal_count(answers),
        after(v, answers).checkpointing == v.checkpointing,
    decreases answers.len(),
{
    if answers.len() > 0 {
        law_processed_counts_terminal_answers(v, answers.drop_last());
    }
}

/// Checkpoints fall due at every 25th resolved attempt and at no other
/// time: over any run, as many as multiples of 25 are passed by the count,
/// and none where no output path is configured.
pub proof fn law_checkpoint_cadence(v: PipelineView, answers: Seq<Answer>)
    ensures
        v.checkpointing ==> checkpoints(v, answers) == (v.processed + terminal_count(answers)) / (
        CHECKPOINT_EVERY as nat) - v.processed / (CHECKPOINT_EVERY as nat),
        !v.checkpointing ==> checkpoints(v, answers) == 0,
    decreases answers.len(),
{
    if answers.len() > 0 {
        let front = answers.drop_last();
        law_checkpoint_cadence(v, front);
        law_processed_counts_terminal_answers(v, front);
        law_processed_counts_terminal_answers(v, answers);
        let p = (v.processed + terminal_count(front)) as int;
        if answers.last().outcome.is_terminal() {
            assert(after(v, answers).processed == p + 1);
            assert((p + 1) / 25 == p / 25 + if (p + 1) % 25 == 0 {
                1int
            } else {
                0int
            });
        }
    }
}

} // verus!
