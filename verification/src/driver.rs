//! The state machine of a driven loop.

use crate::signal::LoopState;
use vstd::prelude::*;

verus! {

/// Where a driven loop stands between two steps.
///
/// A loop starts in `Running`. The three other states are terminal: once a
/// loop is in one of them it stays there, and no further step is taken.
#[derive(Debug, PartialEq, Eq)]
pub enum DriverState<E> {
    /// The loop goes on: the next iteration is due.
    Running,
    /// A step asked to break.
    StoppedGracefully,
    /// The flag read "stop" at an iteration boundary.
    StoppedByCancellation,
    /// A step failed with this error.
    Failed(E),
}

/// What one iteration of the cancellable loop meets.
pub enum Iteration<E> {
    /// The flag read "stop" at the boundary, so no step is taken.
    Cancelled,
    /// The flag read "keep running", and the step reported this outcome.
    Stepped(Result<LoopState, E>),
}

impl<E> DriverState<E> {
    /// No iteration follows this state.
    pub open spec fn is_terminal(self) -> bool {
        !(self is Running)
    }

    /// The state after the flag was read at an iteration boundary.
    pub open spec fn after_flag(self, keep_running: bool) -> Self {
        if self is Running && !keep_running {
            DriverState::StoppedByCancellation
        } else {
            self
        }
    }

    /// The state after a step reported `outcome`. A terminal state takes no
    /// step, so it is left as it is.
    pub open spec fn after_step(self, outcome: Result<LoopState, E>) -> Self {
        if self is Running {
            match outcome {
                Ok(LoopState::Continue) => DriverState::Running,
                Ok(LoopState::Break) => DriverState::StoppedGracefully,
                Err(e) => DriverState::Failed(e),
            }
        } else {
            self
        }
    }

    /// The state after one iteration of the cancellable loop: the flag is
    /// read first, and the step counts only if the loop still runs then.
    pub open spec fn after_iteration(self, iteration: Iteration<E>) -> Self {
        match iteration {
            Iteration::Cancelled => self.after_flag(false),
            Iteration::Stepped(outcome) => self.after_flag(true).after_step(outcome),
        }
    }

    /// What the loop hands to whoever waits for it: nothing while it runs,
    /// success for both kinds of stop, the step's error for a failure.
    pub open spec fn report(self) -> Option<Result<(), E>> {
        match self {
            DriverState::Running => None,
            DriverState::StoppedGracefully => Some(Ok(())),
            DriverState::StoppedByCancellation => Some(Ok(())),
            DriverState::Failed(e) => Some(Err(e)),
        }
    }

    /// Tells whether another iteration is due.
    pub fn is_running(&self) -> (running: bool)
        ensures
            running == (*self is Running),
    {
        match self {
            DriverState::Running => true,
            _ => false,
        }
    }

    /// Takes in what the flag read at an iteration boundary.
    pub fn observe_flag(self, keep_running: bool) -> (next: Self)
        ensures
            next == self.after_flag(keep_running),
    {
        match self {
            DriverState::Running => {
                if keep_running {
                    DriverState::Running
                } else {
                    DriverState::StoppedByCancellation
                }
            },
            stopped => stopped,
        }
    }

    /// Takes in what a step reported.
    pub fn observe_step(self, outcome: Result<LoopState, E>) -> (next: Self)
        ensures
            next == self.after_step(outcome),
    {
        match self {
            DriverState::Running => match outcome {
                Ok(LoopState::Continue) => DriverState::Running,
                Ok(LoopState::Break) => DriverState::StoppedGracefully,
                Err(e) => DriverState::Failed(e),
            },
            stopped => stopped,
        }
    }

    /// Turns the state into the loop's result, `None` while the loop runs.
    pub fn into_result(self) -> (result: Option<Result<(), E>>)
        ensures
            result == self.report(),
    {
        match self {
            DriverState::Running => None,
            DriverState::StoppedGracefully => Some(Ok(())),
            DriverState::StoppedByCancellation => Some(Ok(())),
            DriverState::Failed(e) => Some(Err(e)),
        }
    }
}

} // verus!
