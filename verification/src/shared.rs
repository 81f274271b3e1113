//! The state that the workers of one search share: the stop signal, the
//! total of attempts and the start of the clock.

use crate::progress::ProgressSnapshot;
use std::sync::atomic::AtomicBool;
use std::sync::atomic::AtomicU64;
use std::sync::atomic::Ordering;
use std::time::Duration;
use std::time::Instant;
use vstd::prelude::*;

verus! {

/// `std::time::Instant`, a point on the monotonic clock. Carried, never read.
#[verifier::external_type_specification]
#[verifier::external_body]
pub struct ExInstant(Instant);

/// `Instant::now()`: the present moment. Nothing is claimed of it.
pub assume_specification[ Instant::now ]() -> (now: Instant);

/// `Instant::elapsed()`: the time since that moment. Nothing is claimed of it.
pub assume_specification[ Instant::elapsed ](start: &Instant) -> (elapsed: Duration);

/// `Duration::as_secs()`: the whole seconds of a duration. Nothing is claimed of it.
pub assume_specification[ Duration::as_secs ](duration: &Duration) -> (secs: u64);

/// The shared state of one search. It belongs to that search alone: a second
/// search makes its own.
///
/// All accesses are relaxed atomic operations. What one worker reads depends
/// on what the others have written, so nothing is promised of the values.
pub struct SearchState {
    found: AtomicBool,
    total_attempts: AtomicU64,
    start_time: Instant,
}

impl SearchState {
    /// A fresh state: nothing found, no attempts, the clock started now.
    pub fn new() -> SearchState {
        SearchState {
            found: AtomicBool::new(false),
            total_attempts: AtomicU64::new(0),
            start_time: Instant::now(),
        }
    }

    /// Reads the stop signal.
    pub fn stop_requested(&self) -> bool {
        self.found.load(Ordering::Relaxed)
    }

    /// Tries to turn the stop signal on. Of all the workers that try, only
    /// the one whose call turns it from off to on is told `true`.
    pub fn claim_win(&self) -> bool {
        let swapped = self.found.compare_exchange(false, true, Ordering::Relaxed, Ordering::Relaxed);
        swapped.is_ok()
    }

    /// Adds `count` attempts to the shared total and gives the total as it
    /// stands right after the addition.
    pub fn add_attempts(&self, count: u64) -> u64 {
        let before: u64 = self.total_attempts.fetch_add(count, Ordering::Relaxed);
        before.wrapping_add(count)
    }

    /// Reads the shared total.
    pub fn total_attempts(&self) -> u64 {
        self.total_attempts.load(Ordering::Relaxed)
    }

    /// The time since the search began.
    pub fn elapsed(&self) -> Duration {
        self.start_time.elapsed()
    }

    /// Takes a snapshot for a total of `attempts` at the present moment.
    pub fn snapshot(&self, attempts: u64) -> (snapshot: ProgressSnapshot)
        ensures
            snapshot.attempts == attempts,
            snapshot.seconds < 60,
    {
        let elapsed: Duration = self.elapsed();
        let total_secs: u64 = elapsed.as_secs();
        ProgressSnapshot::new(attempts, elapsed, total_secs)
    }
}

} // verus!
