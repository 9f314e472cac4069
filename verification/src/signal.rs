//! A stop signal that is handed to whoever is to heed it.

use std::sync::atomic::{AtomicBool, Ordering};
use vstd::prelude::*;

verus! {

/// One shared flag: a controller raises it once, background work reads it
/// now and then and winds down when it is up.
///
/// The flag is a value like any other. It is made where the work starts and
/// passed along by reference, so that two runs, or two tests, never share
/// one. It is read and written with relaxed ordering: nothing else is
/// published through it. As with every shared atomic, no contract can say
/// what a read finds.
pub struct StopSignal {
    stopped: AtomicBool,
}

impl StopSignal {
    /// A signal that is not raised.
    pub fn new() -> (signal: Self) {
        StopSignal { stopped: AtomicBool::new(false) }
    }

    /// Raises the signal. It stays up.
    pub fn stop(&self) {
        self.stopped.store(true, Ordering::Relaxed);
    }

    /// Whether the signal was found raised.
    pub fn is_stopped(&self) -> (stopped: bool) {
        self.stopped.load(Ordering::Relaxed)
    }
}

} // verus!
