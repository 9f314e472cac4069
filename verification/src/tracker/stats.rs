//! The size of a run and the statistics it ends with.

use super::observer::{
    largest_gap, last_read, status_of, InvariantViolation, ObserverCursor, Status,
};
use std::time::Duration;
use vstd::prelude::*;

verus! {

/// What a run reports once the observer has seen it complete.
#[derive(Clone, Copy, Debug, PartialEq, Eq)]
pub struct FinalStats {
    /// The largest gap between two reads of the observer in a row.
    pub max_gap: usize,
    /// How long the run took, as the caller measured it.
    pub total_time: Duration,
}

/// The number of reports that `num_workers` workers make with
/// `units_per_worker` units each, unless it is more than the machine can
/// count.
pub fn total_expected(num_workers: usize, units_per_worker: usize) -> (total: Option<usize>)
    ensures
        match total {
            Some(total) => total == num_workers * units_per_worker,
            None => num_workers * units_per_worker > usize::MAX,
        },
{
    num_workers.checked_mul(units_per_worker)
}

/// The statistics of a run that the observer has seen complete.
///
/// A last count beyond `total_expected` says that more was reported than the
/// run was to hold, and is a violation.
pub fn final_stats(cursor: &ObserverCursor, total_expected: usize, total_time: Duration) -> (result:
    Result<FinalStats, InvariantViolation>)
    requires
        status_of(last_read(cursor@), total_expected as nat) == Status::Complete,
    ensures
        match result {
            Ok(stats) => {
                &&& last_read(cursor@) == total_expected
                &&& stats.max_gap == largest_gap(cursor@)
                &&& stats.total_time == total_time
            },
            Err(violation) => {
                &&& last_read(cursor@) > total_expected
                &&& violation == (InvariantViolation::CountExceedsTotal {
                    count: last_read(cursor@) as usize,
                    total_expected,
                })
            },
        },
{
    let count: usize = cursor.last_seen();
    if count > total_expected {
        return Err(InvariantViolation::CountExceedsTotal { count, total_expected });
    }
    Ok(FinalStats { max_gap: cursor.max_gap(), total_time })
}

} // verus!
