//! Whole runs of a loop, as sequences of what it met, and what holds of them.
//!
//! A run of the loop that nothing can cancel is the sequence of outcomes
//! that its steps reported. A run of the cancellable loop is a sequence of
//! [`Iteration`]s: at each, either the flag read "stop", or it read "keep
//! running" and a step reported an outcome. The state of a loop after a
//! run is the fold of the state machine over it.

use crate::driver::DriverState;
use crate::driver::Iteration;
use crate::signal::LoopState;
use vstd::prelude::*;

verus! {

/// The state of the loop that nothing can cancel, started afresh, once the
/// unit's steps have reported `outcomes` in this order. Outcomes that come
/// after the loop has stopped stand for steps that are never taken.
pub open spec fn run_state<E>(outcomes: Seq<Result<LoopState, E>>) -> DriverState<E>
    decreases outcomes.len(),
{
    if outcomes.len() == 0 {
        DriverState::Running
    } else {
        run_state(outcomes.drop_last()).after_step(outcomes.last())
    }
}

/// How many steps that loop takes on `outcomes`: one for each outcome that
/// finds it still running.
pub open spec fn run_steps<E>(outcomes: Seq<Result<LoopState, E>>) -> nat
    decreases outcomes.len(),
{
    if outcomes.len() == 0 {
        0
    } else if run_state(outcomes.drop_last()) is Running {
        run_steps(outcomes.drop_last()) + 1
    } else {
        run_steps(outcomes.drop_last())
    }
}

/// Every outcome but the last asks to continue: the shape of what a loop's
/// steps report up to the one that ends it.
pub open spec fn continues_until_last<E>(outcomes: Seq<Result<LoopState, E>>) -> bool {
    forall|i: int|
        0 <= i < outcomes.len() - 1 ==> outcomes[i] == Ok::<LoopState, E>(LoopState::Continue)
}

/// The state of the cancellable loop, started afresh, after `iterations`.
/// Iterations that come after the loop has stopped never happen.
pub open spec fn watched_state<E>(iterations: Seq<Iteration<E>>) -> DriverState<E>
    decreases iterations.len(),
{
    if iterations.len() == 0 {
        DriverState::Running
    } else {
        watched_state(iterations.drop_last()).after_iteration(iterations.last())
    }
}

/// How many steps the cancellable loop takes over `iterations`: one for each
/// iteration that finds it running and the flag still set.
pub open spec fn watched_steps<E>(iterations: Seq<Iteration<E>>) -> nat
    decreases iterations.len(),
{
    if iterations.len() == 0 {
        0
    } else if watched_state(iterations.drop_last()) is Running && iterations.last() is Stepped {
        watched_steps(iterations.drop_last()) + 1
    } else {
        watched_steps(iterations.drop_last())
    }
}

/// Every iteration but the last finds the flag set and a step that asks to
/// continue: the shape of what a cancellable loop meets up to the iteration
/// that ends it.
pub open spec fn goes_on_until_last<E>(iterations: Seq<Iteration<E>>) -> bool {
    forall|i: int|
        0 <= i < iterations.len() - 1 ==> iterations[i] == Iteration::Stepped(
            Ok::<LoopState, E>(LoopState::Continue),
        )
}

/// A terminal state is final: no reading of the flag and no outcome of a
/// step moves a loop out of it, so a loop stops once and for all.
pub proof fn lemma_terminal_state_is_final<E>(
    state: DriverState<E>,
    keep_running: bool,
    outcome: Result<LoopState, E>,
)
    requires
        state.is_terminal(),
    ensures
        state.after_flag(keep_running) == state,
        state.after_step(outcome) == state,
        state.after_iteration(Iteration::Cancelled) == state,
        state.after_iteration(Iteration::Stepped(outcome)) == state,
{
}

/// The loop that nothing can cancel never ends as cancelled: it reads no
/// flag, so it runs, stops because a step asked it to, or fails.
pub proof fn lemma_run_is_never_cancelled<E>(outcomes: Seq<Result<LoopState, E>>)
    ensures
        !(run_state(outcomes) is StoppedByCancellation),
    decreases outcomes.len(),
{
    if outcomes.len() > 0 {
        lemma_run_is_never_cancelled(outcomes.drop_last());
    }
}

/// Once the loop that nothing can cancel has stopped, whatever the unit
/// would report later changes neither its state nor the number of steps
/// taken.
pub proof fn lemma_run_stays_stopped<E>(
    outcomes: Seq<Result<LoopState, E>>,
    later: Seq<Result<LoopState, E>>,
)
    requires
        run_state(outcomes).is_terminal(),
    ensures
        run_state(outcomes + later) == run_state(outcomes),
        run_steps(outcomes + later) == run_steps(outcomes),
    decreases later.len(),
{
    if later.len() == 0 {
        assert(outcomes + later =~= outcomes);
    } else {
        lemma_run_stays_stopped(outcomes, later.drop_last());
        assert((outcomes + later).drop_last() =~= outcomes + later.drop_last());
    }
}

/// While every step asks to continue, the loop that nothing can cancel keeps
/// running and takes every step.
pub proof fn lemma_run_goes_on_while_continuing<E>(outcomes: Seq<Result<LoopState, E>>)
    requires
        forall|i: int|
            0 <= i < outcomes.len() ==> outcomes[i] == Ok::<LoopState, E>(LoopState::Continue),
    ensures
        run_state(outcomes) is Running,
        run_steps(outcomes) == outcomes.len(),
    decreases outcomes.len(),
{
    if outcomes.len() > 0 {
        lemma_run_goes_on_while_continuing(outcomes.drop_last());
    }
}

/// The loop that nothing can cancel is where the last step it took has
/// brought it: for `outcomes` made of `Continue`s and then any one outcome,
/// its state is the one that this last outcome leads to from `Running`, and
/// it has taken every step.
pub proof fn lemma_run_follows_last_outcome<E>(outcomes: Seq<Result<LoopState, E>>)
    requires
        outcomes.len() > 0,
        continues_until_last(outcomes),
    ensures
        run_state(outcomes) == DriverState::<E>::Running.after_step(outcomes.last()),
        run_steps(outcomes) == outcomes.len(),
{
    lemma_run_goes_on_while_continuing(outcomes.drop_last());
}

/// A loop that is still running goes on as if it had just started: after
/// `outcomes` that leave it running, it is where `later` alone would have
/// brought it.
pub proof fn lemma_run_resumes<E>(
    outcomes: Seq<Result<LoopState, E>>,
    later: Seq<Result<LoopState, E>>,
)
    requires
        run_state(outcomes) is Running,
    ensures
        run_state(outcomes + later) == run_state(later),
    decreases later.len(),
{
    if later.len() == 0 {
        assert(outcomes + later =~= outcomes);
    } else {
        lemma_run_resumes(outcomes, later.drop_last());
        assert((outcomes + later).drop_last() =~= outcomes + later.drop_last());
    }
}

/// The loop that nothing can cancel ends on the first outcome that is not
/// `Continue`: for any `outcomes` made of `Continue`s and then one `Break`
/// or error, it reports exactly that last outcome, and it has taken exactly
/// `outcomes.len()` steps, none after the last, whatever the unit would
/// have reported `later`.
pub proof fn lemma_run_ends_on_first_terminal_outcome<E>(
    outcomes: Seq<Result<LoopState, E>>,
    later: Seq<Result<LoopState, E>>,
)
    requires
        outcomes.len() > 0,
        continues_until_last(outcomes),
        outcomes.last() != Ok::<LoopState, E>(LoopState::Continue),
    ensures
        run_state(outcomes + later) == DriverState::<E>::Running.after_step(outcomes.last()),
        run_state(outcomes + later).report() == Some(
            match outcomes.last() {
                Ok(_) => Ok::<(), E>(()),
                Err(e) => Err::<(), E>(e),
            },
        ),
        run_steps(outcomes + later) == outcomes.len(),
{
    lemma_run_follows_last_outcome(outcomes);
    lemma_run_stays_stopped(outcomes, later);
}

/// Once the cancellable loop has stopped, later iterations change neither
/// its state nor the number of steps taken.
pub proof fn lemma_watched_stays_stopped<E>(
    iterations: Seq<Iteration<E>>,
    later: Seq<Iteration<E>>,
)
    requires
        watched_state(iterations).is_terminal(),
    ensures
        watched_state(iterations + later) == watched_state(iterations),
        watched_steps(iterations + later) == watched_steps(iterations),
    decreases later.len(),
{
    if later.len() == 0 {
        assert(iterations + later =~= iterations);
    } else {
        lemma_watched_stays_stopped(iterations, later.drop_last());
        assert((iterations + later).drop_last() =~= iterations + later.drop_last());
    }
}

/// A running loop that finds the flag cleared at a boundary ends there: if
/// the cancellable loop is still running when it comes to iteration `k`,
/// and the flag reads "stop" at it, the loop ends as a success, and it
/// takes no step at that iteration or after it, whatever the later
/// iterations hold.
pub proof fn lemma_cleared_flag_stops_running_loop<E>(iterations: Seq<Iteration<E>>, k: int)
    requires
        0 <= k < iterations.len(),
        watched_state(iterations.subrange(0, k)) is Running,
        iterations[k] is Cancelled,
    ensures
        watched_state(iterations) is StoppedByCancellation,
        watched_state(iterations).report() == Some(Ok::<(), E>(())),
        watched_steps(iterations) == watched_steps(iterations.subrange(0, k)),
{
    let upto = iterations.subrange(0, k + 1);
    let later = iterations.subrange(k + 1, iterations.len() as int);
    assert(upto.drop_last() =~= iterations.subrange(0, k));
    assert(upto.last() == iterations[k]);
    lemma_watched_stays_stopped(upto, later);
    assert(upto + later =~= iterations);
}

/// A flag that is already cleared at the first boundary stops the
/// cancellable loop before it does anything: the loop ends as a success and
/// not one step is taken.
pub proof fn lemma_cancelled_before_first_step<E>(iterations: Seq<Iteration<E>>)
    requires
        iterations.len() > 0,
        iterations[0] is Cancelled,
    ensures
        watched_state(iterations) is StoppedByCancellation,
        watched_state(iterations).report() == Some(Ok::<(), E>(())),
        watched_steps(iterations) == 0,
{
    lemma_cleared_flag_stops_running_loop(iterations, 0);
}

/// While the flag stays set and every step asks to continue, the cancellable
/// loop keeps running and takes every step.
pub proof fn lemma_watched_goes_on_while_continuing<E>(iterations: Seq<Iteration<E>>)
    requires
        forall|i: int|
            0 <= i < iterations.len() ==> iterations[i] == Iteration::Stepped(
                Ok::<LoopState, E>(LoopState::Continue),
            ),
    ensures
        watched_state(iterations) is Running,
        watched_steps(iterations) == iterations.len(),
    decreases iterations.len(),
{
    if iterations.len() > 0 {
        lemma_watched_goes_on_while_continuing(iterations.drop_last());
    }
}

/// The cancellable loop is where the last iteration it went through has
/// brought it: for `iterations` that find the flag set and a step asking to
/// continue, and then any one iteration, its state is the one that this
/// last iteration leads to from `Running`.
pub proof fn lemma_watched_follows_last_iteration<E>(iterations: Seq<Iteration<E>>)
    requires
        iterations.len() > 0,
        goes_on_until_last(iterations),
    ensures
        watched_state(iterations) == DriverState::<E>::Running.after_iteration(iterations.last()),
        iterations.last() is Stepped ==> watched_steps(iterations) == iterations.len(),
        iterations.last() is Cancelled ==> watched_steps(iterations) == iterations.len() - 1,
{
    lemma_watched_goes_on_while_continuing(iterations.drop_last());
}

/// A cancellable loop that is still running goes on as if it had just
/// started: after `iterations` that leave it running, it is where `later`
/// alone would have brought it.
pub proof fn lemma_watched_resumes<E>(iterations: Seq<Iteration<E>>, later: Seq<Iteration<E>>)
    requires
        watched_state(iterations) is Running,
    ensures
        watched_state(iterations + later) == watched_state(later),
    decreases later.len(),
{
    if later.len() == 0 {
        assert(iterations + later =~= iterations);
    } else {
        lemma_watched_resumes(iterations, later.drop_last());
        assert((iterations + later).drop_last() =~= iterations + later.drop_last());
    }
}

/// A unit that always asks to continue is stopped by cancellation alone, and
/// at the first boundary where the flag reads "stop": if that is iteration
/// `k`, the loop ends there as a success after exactly `k` steps. A step
/// under way when the flag is cleared is the last one.
pub proof fn lemma_cancellation_stops_at_next_boundary<E>(iterations: Seq<Iteration<E>>, k: int)
    requires
        0 <= k < iterations.len(),
        forall|i: int|
            0 <= i < k ==> iterations[i] == Iteration::Stepped(
                Ok::<LoopState, E>(LoopState::Continue),
            ),
        iterations[k] is Cancelled,
    ensures
        watched_state(iterations) is StoppedByCancellation,
        watched_state(iterations).report() == Some(Ok::<(), E>(())),
        watched_steps(iterations) == k,
{
    lemma_watched_goes_on_while_continuing(iterations.subrange(0, k));
    lemma_cleared_flag_stops_running_loop(iterations, k);
}

} // verus!
