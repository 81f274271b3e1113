//! Progress snapshots and the cadence at which they are emitted.

use std::time::Duration;
use vstd::prelude::*;

verus! {

/// A worker hands its unflushed attempts to the shared total whenever this
/// many have piled up.
pub const FLUSH_INTERVAL: u64 = 50_000;

/// A snapshot is due roughly once per this many attempts of the shared total.
pub const REPORT_PERIOD: u64 = 250_000;

/// What a progress report shows: the attempts made so far by all workers and
/// the time since the search began, whole and split into minutes and seconds.
#[derive(Clone, Copy, Debug)]
pub struct ProgressSnapshot {
    pub attempts: u64,
    pub elapsed: Duration,
    pub minutes: u64,
    pub seconds: u64,
}

/// A total is worth a report when it lies within one flush of a multiple of
/// the report period.
pub open spec fn spec_report_due(total: u64) -> bool {
    total % REPORT_PERIOD < FLUSH_INTERVAL
}

/// Decides whether the shared total, as it stands after a flush, calls for a
/// snapshot. Totals are racy, so a boundary may be skipped or hit twice; the
/// decision itself depends on the total alone.
pub fn report_due(total: u64) -> (due: bool)
    ensures
        due == spec_report_due(total),
{
    total % REPORT_PERIOD < FLUSH_INTERVAL
}

/// Splits a number of seconds into whole minutes and the seconds left over.
pub fn split_elapsed(total_secs: u64) -> (parts: (u64, u64))
    ensures
        parts.0 == total_secs / 60,
        parts.1 == total_secs % 60,
        parts.0 * 60 + parts.1 == total_secs,
{
    (total_secs / 60, total_secs % 60)
}

impl ProgressSnapshot {
    /// Builds the snapshot for a total of `attempts` taken `elapsed` after the
    /// start, `total_secs` being the whole seconds of `elapsed`.
    pub fn new(attempts: u64, elapsed: Duration, total_secs: u64) -> (snapshot: ProgressSnapshot)
        ensures
            snapshot.attempts == attempts,
            snapshot.elapsed == elapsed,
            snapshot.minutes == total_secs / 60,
            snapshot.seconds == total_secs % 60,
    {
        let parts: (u64, u64) = split_elapsed(total_secs);
        ProgressSnapshot { attempts, elapsed, minutes: parts.0, seconds: parts.1 }
    }
}

} // verus!
