//! Progress tracking for many workers and one observer.
//!
//! Workers report completed units through a shared [`ProgressTracker`]; the
//! observer keeps an [`ObserverCursor`] of its own and asks the tracker, after
//! every wake, whether the run is complete.

pub mod history;
pub mod ledger;
pub mod observer;
pub mod shared;
pub mod stats;

pub use ledger::CompletionLedger;
pub use observer::{InvariantViolation, ObserverCursor, Status};
pub use shared::ProgressTracker;
pub use stats::{final_stats, total_expected, FinalStats};
