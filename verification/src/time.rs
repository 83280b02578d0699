//! Points in time and the freshness window.

use vstd::prelude::*;

verus! {

/// Nanoseconds in one second.
pub const NANOS_PER_SEC: i128 = 1_000_000_000;

/// Length of the freshness window in days.
pub const FRESHNESS_DAYS: i128 = 180;

/// Seconds in one day.
pub const SECS_PER_DAY: i128 = 86_400;

/// Length of the freshness window in nanoseconds.
pub const FRESHNESS_NANOS: i128 = 15_552_000_000_000_000;

/// A naive UTC instant: whole seconds since 1970-01-01T00:00:00 and the
/// nanoseconds past that second.
#[derive(Clone, Copy, Debug, PartialEq, Eq, Structural)]
pub struct Timestamp {
    pub secs: i64,
    pub nanos: u32,
}

impl Timestamp {
    /// The instant as a count of nanoseconds since the epoch.
    pub open spec fn as_nanos(self) -> int {
        self.secs * 1_000_000_000 + self.nanos
    }

    pub fn new(secs: i64, nanos: u32) -> (t: Timestamp)
        ensures
            t.secs == secs,
            t.nanos == nanos,
    {
        Timestamp { secs, nanos }
    }

    /// Signed distance from `earlier` to `self`, in nanoseconds.
    pub fn nanos_since(&self, earlier: &Timestamp) -> (d: i128)
        ensures
            d == self.as_nanos() - earlier.as_nanos(),
    {
        let secs: i128 = self.secs as i128 - earlier.secs as i128;
        let nanos: i128 = self.nanos as i128 - earlier.nanos as i128;
        secs * NANOS_PER_SEC + nanos
    }
}

/// The time that has passed since 1970-01-01T00:00:00 UTC, as whole seconds
/// and the nanoseconds past them, read with `SystemTime::elapsed` on
/// `std::time::UNIX_EPOCH`. There is none where the clock stands before
/// that instant. The nanoseconds are those of `Duration::subsec_nanos`,
/// which std documents as less than a second. Nothing else is claimed of
/// what comes back.
#[verifier::external_body]
fn since_epoch() -> (elapsed: Option<(u64, u32)>)
    ensures
        elapsed matches Some(e) ==> e.1 < 1_000_000_000,
{
    match std::time::UNIX_EPOCH.elapsed() {
        Ok(elapsed) => Some((elapsed.as_secs(), elapsed.subsec_nanos())),
        Err(_) => None,
    }
}

/// The instant that `chrono::DateTime::from_timestamp` makes of `secs` and
/// `nanos`, where it makes one: chrono documents that `timestamp` and
/// `timestamp_subsec_nanos` then give the two numbers back. It makes none
/// for a second outside the years that chrono can hold. Nothing is claimed
/// of when it makes one.
#[verifier::external_body]
fn chrono_instant(secs: i64, nanos: u32) -> (instant: Option<Timestamp>)
    ensures
        instant matches Some(t) ==> t.secs == secs && t.nanos == nanos,
{
    match chrono::DateTime::from_timestamp(secs, nanos) {
        Some(at) => Some(Timestamp { secs: at.timestamp(), nanos: at.timestamp_subsec_nanos() }),
        None => None,
    }
}

impl Timestamp {
    /// The instant that the wall clock shows, if it shows one that can be
    /// recorded: not before 1970, and within the years that a date can
    /// name. An instant that comes back is never a leap second.
    pub fn now() -> (now: Option<Timestamp>)
        ensures
            now matches Some(t) ==> t.secs >= 0 && t.nanos < 1_000_000_000,
    {
        match since_epoch() {
            Some((secs, nanos)) => {
                if secs <= 0x7fff_ffff_ffff_ffff {
                    chrono_instant(secs as i64, nanos)
                } else {
                    None
                }
            },
            None => None,
        }
    }
}

/// Whether something last archived at `last` still counts as archived at
/// `now`: strictly less than the freshness window has passed.
pub open spec fn within_window(now: Timestamp, last: Timestamp) -> bool {
    now.as_nanos() - last.as_nanos() < FRESHNESS_NANOS
}

pub fn is_within_window(now: &Timestamp, last: &Timestamp) -> (fresh: bool)
    ensures
        fresh == within_window(*now, *last),
{
    now.nanos_since(last) < FRESHNESS_NANOS
}

/// The window is 180 days of 86 400 seconds.
pub proof fn window_is_180_days()
    ensures
        FRESHNESS_NANOS == FRESHNESS_DAYS * SECS_PER_DAY * NANOS_PER_SEC,
{
}

} // verus!
