//! The unit of work, and the record of what a loop did to it.

use crate::driver::Iteration;
use crate::signal::LoopState;
use vstd::prelude::*;

verus! {

/// A unit of work that is done over and over, one step at a time.
pub trait Cancellable {
    /// How a step fails.
    type Error;

    /// What a step of this unit may do: whether one step can take the unit
    /// from `self` to `after` and report `outcome`.
    ///
    /// This is the unit's own word about its steps, and the contracts of the
    /// loops are stated over it. A unit that says nothing keeps the answer
    /// given here, which allows every step.
    open spec fn steps_to(&self, after: &Self, outcome: Result<LoopState, Self::Error>) -> bool {
        true
    }

    /// Does one step: `Continue` to be called again, `Break` when the work is
    /// over, an error when it cannot go on. A step may block for as long as
    /// it needs; a loop looks at its flag only between two steps.
    ///
    /// All that is asked of a step is that it keeps the unit's own word,
    /// [`Cancellable::steps_to`]. Verus holds a unit that it verifies to
    /// that; of a unit written outside Verus it holds because such a unit
    /// has given no word.
    fn for_each(&mut self) -> (outcome: Result<LoopState, Self::Error>)
        ensures
            old(self).steps_to(final(self), outcome),
    ;
}

/// Where a unit stands after the first `i` of the moves recorded in `units`:
/// at `start` before any, and after that where move `i - 1` left it.
pub open spec fn unit_at<C>(start: C, units: Seq<C>, i: int) -> C {
    if i <= 0 {
        start
    } else {
        units[i - 1]
    }
}

/// `units` and `outcomes` record consecutive steps of one unit that starts
/// at `start`: step `i` takes it on to `units[i]` and reports `outcomes[i]`.
pub open spec fn steps_through<C: Cancellable>(
    start: C,
    units: Seq<C>,
    outcomes: Seq<Result<LoopState, C::Error>>,
) -> bool {
    &&& units.len() == outcomes.len()
    &&& forall|i: int|
        0 <= i < units.len() ==> (#[trigger] unit_at(start, units, i)).steps_to(
            &units[i],
            outcomes[i],
        )
}

/// `units` and `iterations` record consecutive iterations of a cancellable
/// loop over one unit that starts at `start`: an iteration that takes a
/// step moves the unit as the step does, and one that finds the flag
/// cleared leaves it where it was.
pub open spec fn iterates_through<C: Cancellable>(
    start: C,
    units: Seq<C>,
    iterations: Seq<Iteration<C::Error>>,
) -> bool {
    &&& units.len() == iterations.len()
    &&& forall|i: int|
        0 <= i < units.len() ==> match iterations[i] {
            Iteration::Cancelled => units[i] == #[trigger] unit_at(start, units, i),
            Iteration::Stepped(outcome) => (#[trigger] unit_at(start, units, i)).steps_to(
                &units[i],
                outcome,
            ),
        }
}

} // verus!
