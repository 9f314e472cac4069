//! The state that workers and observer share: two atomic counters.

use super::observer::{observed, InvariantViolation, ObserverCursor, Status};
use std::sync::atomic::{AtomicUsize, Ordering};
use vstd::prelude::*;

verus! {

/// Counts completed units of work for any number of workers and one observer.
///
/// Both counters are only ever touched by single atomic operations with
/// relaxed ordering: they carry no other data whose visibility would have to
/// be ordered with them. A shared atomic has no value that a contract could
/// speak of, so the contracts below say what holds whatever value an
/// operation met. How a counter behaves that is only ever incremented
/// atomically is stated and proved in [`super::history`].
pub struct ProgressTracker {
    /// Completed units: starts at zero, goes up by one per report.
    completed: AtomicUsize,
    /// The largest gap that the observer has recorded.
    max_gap: AtomicUsize,
}

impl ProgressTracker {
    /// A tracker with no completion reported and no gap recorded.
    pub fn new() -> (tracker: Self) {
        ProgressTracker { completed: AtomicUsize::new(0), max_gap: AtomicUsize::new(0) }
    }

    /// Counts one completed unit and returns the count from just before it:
    /// the number of completions that came before this one.
    ///
    /// One atomic fetch-and-add; it neither blocks nor fails, and it may be
    /// called from any number of workers at once. Waking the observer is the
    /// caller's next step.
    pub fn report_completion(&self) -> (previous: usize) {
        self.completed.fetch_add(1, Ordering::Relaxed)
    }

    /// Reads the number of completions reported so far.
    pub fn current_count(&self) -> (count: usize) {
        self.completed.load(Ordering::Relaxed)
    }

    /// Reads the largest gap that an observation has recorded so far.
    pub fn max_observation_gap(&self) -> (gap: usize) {
        self.max_gap.load(Ordering::Relaxed)
    }

    /// One observation: reads the counter, measures the gap to the cursor's
    /// last read, raises the shared maximum to that gap, moves the cursor,
    /// and says whether `total_expected` completions have been reached.
    ///
    /// On `InProgress` the observer is to suspend until the next report wakes
    /// it, and then observe again; suspending is left to the caller, who owns
    /// the thread. A wake says only that the counter is worth another look:
    /// however many wakes arrived, the verdict rests on the one count read
    /// here.
    ///
    /// Whatever the counter held, the outcome is the one that
    /// [`observed`] gives for that count.
    pub fn observe_and_maybe_wait(
        &self,
        cursor: &mut ObserverCursor,
        total_expected: usize,
    ) -> (result: Result<Status, InvariantViolation>)
        ensures
            exists|count: usize|
                (final(cursor)@, result) == #[trigger] observed(
                    old(cursor)@,
                    count,
                    total_expected,
                ),
    {
        let count: usize = self.current_count();
        let before: usize = cursor.last_seen();
        let result = cursor.observe(count, total_expected);
        if result.is_ok() {
            self.max_gap.fetch_max(count - before, Ordering::Relaxed);
        }
        result
    }
}

} // verus!
