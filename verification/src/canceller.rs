//! The shared flag by which a loop is told to stop.

use std::sync::atomic::AtomicBool;
use std::sync::atomic::Ordering;
use std::sync::Arc;
use vstd::prelude::*;

verus! {

/// A handle on the flag that a cancellable loop reads between two steps.
///
/// The flag starts as "keep running" and can only ever be cleared: there is
/// no way to set it again. Any number of handles may share one flag, on any
/// number of threads; clearing it through one of them is seen through all.
///
/// What the flag holds at a given moment depends on what other threads have
/// done, so no contract here speaks of it. The loop's side of the protocol
/// takes each reading as an input: see [`crate::DriverState::observe_flag`].
pub struct Canceller {
    keep_running: Arc<AtomicBool>,
}

impl Canceller {
    /// Makes a fresh flag, not yet cleared, and the first handle on it.
    pub fn new() -> Canceller {
        Canceller { keep_running: Arc::new(AtomicBool::new(true)) }
    }

    /// Asks the loop to stop by clearing the flag. Doing so again changes
    /// nothing.
    pub fn cancel(&self) {
        self.keep_running.store(false, Ordering::SeqCst);
    }

    /// Reads the flag: `false` once any handle on it has cancelled.
    pub(crate) fn keep_running(&self) -> bool {
        self.keep_running.load(Ordering::SeqCst)
    }
}

impl Clone for Canceller {
    /// Another handle on the same flag, not a flag of its own.
    fn clone(&self) -> (twin: Self)
        ensures
            twin == *self,
    {
        Canceller { keep_running: self.keep_running.clone() }
    }
}

} // verus!
