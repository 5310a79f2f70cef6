//! The two loops, each for a bounded number of iterations at a time.
//!
//! A unit may ask to continue for ever, so a loop that is to end needs a
//! bound: both loops take a budget of iterations and hand the loop back
//! still `Running` when it is used up. Calling again goes on where the
//! last call stopped, and several calls in a row do what one call with the
//! sum of their budgets does: see [`lemma_drive_in_pieces`].

use crate::canceller::Canceller;
use crate::driver::DriverState;
use crate::driver::Iteration;
use crate::signal::LoopState;
use crate::trace::continues_until_last;
use crate::trace::goes_on_until_last;
use crate::trace::lemma_cancelled_before_first_step;
use crate::trace::lemma_run_follows_last_outcome;
use crate::trace::lemma_run_resumes;
use crate::trace::lemma_watched_follows_last_iteration;
use crate::trace::lemma_watched_resumes;
use crate::trace::run_state;
use crate::trace::watched_state;
use crate::unit::iterates_through;
use crate::unit::steps_through;
use crate::unit::unit_at;
use crate::unit::Cancellable;
use vstd::prelude::*;

verus! {

/// What [`drive`] promises: the loop took the steps recorded in `units` and
/// `outcomes`, no more than `budget` of them and none after one that did
/// not ask to continue; the unit is where the last step left it; the loop
/// is in the state that these outcomes lead to; and it is still running
/// only if the whole budget is used up.
pub open spec fn drove<C: Cancellable>(
    before: C,
    budget: int,
    after: C,
    next: DriverState<C::Error>,
    units: Seq<C>,
    outcomes: Seq<Result<LoopState, C::Error>>,
) -> bool {
    &&& outcomes.len() <= budget
    &&& continues_until_last(outcomes)
    &&& steps_through(before, units, outcomes)
    &&& after == unit_at(before, units, units.len() as int)
    &&& next == run_state(outcomes)
    &&& next is Running ==> outcomes.len() == budget
}

/// What [`drive_unless_cancelled`] promises: the loop went through the
/// iterations recorded in `units` and `iterations`, no more than `budget`
/// of them and none after one that ended it; the unit is where the last
/// iteration left it; the loop is in the state that these iterations lead
/// to; and it is still running only if the whole budget is used up.
pub open spec fn drove_unless_cancelled<C: Cancellable>(
    before: C,
    budget: int,
    after: C,
    next: DriverState<C::Error>,
    units: Seq<C>,
    iterations: Seq<Iteration<C::Error>>,
) -> bool {
    &&& iterations.len() <= budget
    &&& goes_on_until_last(iterations)
    &&& iterates_through(before, units, iterations)
    &&& after == unit_at(before, units, units.len() as int)
    &&& next == watched_state(iterations)
    &&& next is Running ==> iterations.len() == budget
}

/// The loop that nothing can cancel, for at most `budget` steps: takes step
/// after step of `unit` until one asks to break or fails, or until the
/// budget is used up, in which case the loop is handed back still
/// `Running`.
pub fn drive<C: Cancellable>(unit: &mut C, budget: u64) -> (next: DriverState<C::Error>)
    ensures
        exists|units: Seq<C>, outcomes: Seq<Result<LoopState, C::Error>>|
            drove(*old(unit), budget as int, *final(unit), next, units, outcomes),
{
    let mut state: DriverState<C::Error> = DriverState::Running;
    let mut left: u64 = budget;
    let ghost mut units: Seq<C> = Seq::empty();
    let ghost mut outcomes: Seq<Result<LoopState, C::Error>> = Seq::empty();
    while left > 0 && state.is_running()
        invariant
            outcomes.len() == budget - left,
            left <= budget,
            steps_through(*old(unit), units, outcomes),
            *unit == unit_at(*old(unit), units, units.len() as int),
            state == run_state(outcomes),
            continues_until_last(outcomes),
            state is Running && outcomes.len() > 0 ==> outcomes.last() == Ok::<
                LoopState,
                C::Error,
            >(LoopState::Continue),
        decreases left,
    {
        let outcome = unit.for_each();
        state = state.observe_step(outcome);
        left = left - 1;
        proof {
            let longer_units = units.push(*unit);
            let longer = outcomes.push(outcome);
            assert(longer.drop_last() =~= outcomes);
            assert forall|i: int| 0 <= i < longer_units.len() implies (#[trigger] unit_at(
                *old(unit),
                longer_units,
                i,
            )).steps_to(&longer_units[i], longer[i]) by {
                assert(unit_at(*old(unit), longer_units, i) == unit_at(*old(unit), units, i));
            }
            units = longer_units;
            outcomes = longer;
        }
    }
    proof {
        assert(drove(*old(unit), budget as int, *unit, state, units, outcomes));
    }
    state
}

/// The cancellable loop, for at most `budget` iterations: reads the flag
/// before every step, stops as soon as it reads "stop", and otherwise goes
/// on like [`drive`].
pub fn drive_unless_cancelled<C: Cancellable>(unit: &mut C, canceller: &Canceller, budget: u64) -> (next:
    DriverState<C::Error>)
    ensures
        exists|units: Seq<C>, iterations: Seq<Iteration<C::Error>>|
            drove_unless_cancelled(
                *old(unit),
                budget as int,
                *final(unit),
                next,
                units,
                iterations,
            ),
{
    let mut state: DriverState<C::Error> = DriverState::Running;
    let mut left: u64 = budget;
    let ghost mut units: Seq<C> = Seq::empty();
    let ghost mut iterations: Seq<Iteration<C::Error>> = Seq::empty();
    while left > 0 && state.is_running()
        invariant
            iterations.len() == budget - left,
            left <= budget,
            iterates_through(*old(unit), units, iterations),
            *unit == unit_at(*old(unit), units, units.len() as int),
            state == watched_state(iterations),
            goes_on_until_last(iterations),
            state is Running && iterations.len() > 0 ==> iterations.last() == Iteration::Stepped(
                Ok::<LoopState, C::Error>(LoopState::Continue),
            ),
        decreases left,
    {
        let ghost iteration;
        let keep_running = canceller.keep_running();
        state = state.observe_flag(keep_running);
        if state.is_running() {
            let outcome = unit.for_each();
            state = state.observe_step(outcome);
            proof {
                iteration = Iteration::Stepped(outcome);
            }
        } else {
            proof {
                iteration = Iteration::Cancelled;
            }
        }
        left = left - 1;
        proof {
            let longer_units = units.push(*unit);
            let longer = iterations.push(iteration);
            assert(longer.drop_last() =~= iterations);
            assert forall|i: int| 0 <= i < longer_units.len() implies match longer[i] {
                Iteration::Cancelled => longer_units[i] == #[trigger] unit_at(
                    *old(unit),
                    longer_units,
                    i,
                ),
                Iteration::Stepped(outcome) => (#[trigger] unit_at(
                    *old(unit),
                    longer_units,
                    i,
                )).steps_to(&longer_units[i], outcome),
            } by {
                assert(unit_at(*old(unit), longer_units, i) == unit_at(*old(unit), units, i));
            }
            units = longer_units;
            iterations = longer;
        }
    }
    proof {
        assert(drove_unless_cancelled(*old(unit), budget as int, *unit, state, units, iterations));
    }
    state
}

/// A cancellable loop that finds the flag cleared at its very first
/// boundary has not touched the unit: that one iteration is all there
/// was, the loop has ended as cancelled, and the unit is as it was before.
pub proof fn lemma_cancelled_at_once_leaves_unit_alone<C: Cancellable>(
    before: C,
    budget: int,
    after: C,
    next: DriverState<C::Error>,
    units: Seq<C>,
    iterations: Seq<Iteration<C::Error>>,
)
    requires
        drove_unless_cancelled(before, budget, after, next, units, iterations),
        iterations.len() > 0,
        iterations[0] is Cancelled,
    ensures
        iterations.len() == 1,
        next is StoppedByCancellation,
        after == before,
{
    lemma_cancelled_before_first_step(iterations);
    assert(units[0] == unit_at(before, units, 0));
}

/// Driving in pieces is driving: when [`drive`] has handed a loop back
/// still `Running`, and is called again on the unit as it is then, the two
/// calls together have done what one call with both budgets does.
pub proof fn lemma_drive_in_pieces<C: Cancellable>(
    start: C,
    first_budget: int,
    middle: C,
    units: Seq<C>,
    outcomes: Seq<Result<LoopState, C::Error>>,
    second_budget: int,
    end: C,
    next: DriverState<C::Error>,
    later_units: Seq<C>,
    later_outcomes: Seq<Result<LoopState, C::Error>>,
)
    requires
        drove(start, first_budget, middle, DriverState::Running, units, outcomes),
        drove(middle, second_budget, end, next, later_units, later_outcomes),
    ensures
        drove(
            start,
            first_budget + second_budget,
            end,
            next,
            units + later_units,
            outcomes + later_outcomes,
        ),
{
    let all_units = units + later_units;
    let all_outcomes = outcomes + later_outcomes;
    if outcomes.len() > 0 {
        lemma_run_follows_last_outcome(outcomes);
    }
    lemma_run_resumes(outcomes, later_outcomes);
    assert forall|i: int| 0 <= i < all_units.len() implies (#[trigger] unit_at(
        start,
        all_units,
        i,
    )).steps_to(&all_units[i], all_outcomes[i]) by {
        if i < units.len() {
            assert(unit_at(start, all_units, i) == unit_at(start, units, i));
        } else {
            assert(unit_at(start, all_units, i) == unit_at(middle, later_units, i - units.len()));
        }
    }
}

/// Driving in pieces is driving, under a flag too: when
/// [`drive_unless_cancelled`] has handed a loop back still `Running`, and is
/// called again on the unit as it is then, the two calls together have done
/// what one call with both budgets does.
pub proof fn lemma_drive_unless_cancelled_in_pieces<C: Cancellable>(
    start: C,
    first_budget: int,
    middle: C,
    units: Seq<C>,
    iterations: Seq<Iteration<C::Error>>,
    second_budget: int,
    end: C,
    next: DriverState<C::Error>,
    later_units: Seq<C>,
    later_iterations: Seq<Iteration<C::Error>>,
)
    requires
        drove_unless_cancelled(
            start,
            first_budget,
            middle,
            DriverState::Running,
            units,
            iterations,
        ),
        drove_unless_cancelled(middle, second_budget, end, next, later_units, later_iterations),
    ensures
        drove_unless_cancelled(
            start,
            first_budget + second_budget,
            end,
            next,
            units + later_units,
            iterations + later_iterations,
        ),
{
    let all_units = units + later_units;
    let all_iterations = iterations + later_iterations;
    if iterations.len() > 0 {
        lemma_watched_follows_last_iteration(iterations);
    }
    lemma_watched_resumes(iterations, later_iterations);
    assert forall|i: int| 0 <= i < all_units.len() implies match all_iterations[i] {
        Iteration::Cancelled => all_units[i] == #[trigger] unit_at(start, all_units, i),
        Iteration::Stepped(outcome) => (#[trigger] unit_at(start, all_units, i)).steps_to(
            &all_units[i],
            outcome,
        ),
    } by {
        if i < units.len() {
            assert(unit_at(start, all_units, i) == unit_at(start, units, i));
        } else {
            assert(unit_at(start, all_units, i) == unit_at(middle, later_units, i - units.len()));
        }
    }
}

} // verus!
