use minion::drive;
use minion::Cancellable;
use minion::DriverState;
use minion::LoopState;

/// Replays a fixed list of outcomes and counts how often it is asked.
struct Scripted {
    outcomes: Vec<Result<LoopState, String>>,
    calls: usize,
}

impl Scripted {
    fn new(outcomes: Vec<Result<LoopState, String>>) -> Scripted {
        Scripted { outcomes, calls: 0 }
    }
}

impl Cancellable for Scripted {
    type Error = String;

    fn for_each(&mut self) -> Result<LoopState, String> {
        let outcome = self.outcomes[self.calls].clone();
        self.calls += 1;
        outcome
    }
}

/// Asks to continue for ever and counts its steps.
struct Endless {
    calls: u64,
}

impl Cancellable for Endless {
    type Error = String;

    fn for_each(&mut self) -> Result<LoopState, String> {
        self.calls += 1;
        Ok(LoopState::Continue)
    }
}

#[test]
fn three_continues_then_break_is_ok_after_four_steps() {
    let mut unit = Scripted::new(vec![
        Ok(LoopState::Continue),
        Ok(LoopState::Continue),
        Ok(LoopState::Continue),
        Ok(LoopState::Break),
    ]);
    let end = drive(&mut unit, u64::MAX);
    assert_eq!(end, DriverState::StoppedGracefully);
    assert_eq!(end.into_result(), Some(Ok(())));
    assert_eq!(unit.calls, 4);
}

#[test]
fn two_continues_then_error_is_that_error_after_three_steps() {
    let mut unit = Scripted::new(vec![
        Ok(LoopState::Continue),
        Ok(LoopState::Continue),
        Err(String::from("E")),
        Ok(LoopState::Continue),
    ]);
    let end = drive(&mut unit, u64::MAX);
    assert_eq!(end, DriverState::Failed(String::from("E")));
    assert_eq!(end.into_result(), Some(Err(String::from("E"))));
    // The outcome after the error is never asked for.
    assert_eq!(unit.calls, 3);
}

#[test]
fn break_on_the_first_step_ends_the_loop_at_once() {
    let mut unit = Scripted::new(vec![Ok(LoopState::Break), Err(String::from("never seen"))]);
    assert_eq!(drive(&mut unit, u64::MAX).into_result(), Some(Ok(())));
    assert_eq!(unit.calls, 1);
}

#[test]
fn error_on_the_first_step_ends_the_loop_at_once() {
    let mut unit = Scripted::new(vec![Err(String::from("boom")), Ok(LoopState::Break)]);
    assert_eq!(drive(&mut unit, u64::MAX).into_result(), Some(Err(String::from("boom"))));
    assert_eq!(unit.calls, 1);
}

#[test]
fn the_first_terminal_outcome_wins_over_later_ones() {
    let mut unit = Scripted::new(vec![
        Ok(LoopState::Continue),
        Ok(LoopState::Break),
        Err(String::from("too late")),
        Ok(LoopState::Break),
    ]);
    assert_eq!(drive(&mut unit, u64::MAX), DriverState::StoppedGracefully);
    assert_eq!(unit.calls, 2);
}

#[test]
fn the_loop_never_reports_cancellation_when_nothing_can_cancel_it() {
    let scripts = vec![
        vec![Ok(LoopState::Break)],
        vec![Ok(LoopState::Continue), Ok(LoopState::Break)],
        vec![Err(String::from("x"))],
        vec![Ok(LoopState::Continue), Ok(LoopState::Continue)],
    ];
    for script in scripts {
        let budget = script.len() as u64;
        let mut unit = Scripted::new(script);
        assert_ne!(drive(&mut unit, budget), DriverState::StoppedByCancellation);
    }
}

#[test]
fn no_budget_means_no_step() {
    let mut unit = Scripted::new(vec![Ok(LoopState::Break)]);
    assert_eq!(drive(&mut unit, 0), DriverState::Running);
    assert_eq!(unit.calls, 0);
}

#[test]
fn a_budget_of_one_takes_exactly_one_step() {
    let mut unit = Scripted::new(vec![Ok(LoopState::Continue), Ok(LoopState::Break)]);
    assert_eq!(drive(&mut unit, 1), DriverState::Running);
    assert_eq!(unit.calls, 1);
    assert_eq!(drive(&mut unit, 1), DriverState::StoppedGracefully);
    assert_eq!(unit.calls, 2);
}

#[test]
fn a_used_up_budget_hands_the_loop_back_running() {
    let mut unit = Endless { calls: 0 };
    assert_eq!(drive(&mut unit, 1000), DriverState::Running);
    assert_eq!(unit.calls, 1000);
    assert_eq!(drive(&mut unit, 1000).into_result(), None);
    assert_eq!(unit.calls, 2000);
}

#[test]
fn a_budget_that_just_suffices_reaches_the_end() {
    let mut unit = Scripted::new(vec![
        Ok(LoopState::Continue),
        Ok(LoopState::Continue),
        Err(String::from("last")),
    ]);
    assert_eq!(drive(&mut unit, 3), DriverState::Failed(String::from("last")));
    assert_eq!(unit.calls, 3);
}

#[test]
fn a_budget_one_short_stops_before_the_end() {
    let mut unit = Scripted::new(vec![
        Ok(LoopState::Continue),
        Ok(LoopState::Continue),
        Err(String::from("last")),
    ]);
    assert_eq!(drive(&mut unit, 2), DriverState::Running);
    assert_eq!(unit.calls, 2);
}

#[test]
fn driving_in_pieces_ends_like_driving_at_once() {
    let script = vec![
        Ok(LoopState::Continue),
        Ok(LoopState::Continue),
        Ok(LoopState::Continue),
        Ok(LoopState::Continue),
        Ok(LoopState::Break),
        Err(String::from("after the end")),
    ];
    let mut whole = Scripted::new(script.clone());
    let at_once = drive(&mut whole, u64::MAX);

    let mut pieces = Scripted::new(script);
    let mut in_pieces = DriverState::Running;
    while in_pieces.is_running() {
        in_pieces = drive(&mut pieces, 2);
    }
    assert_eq!(in_pieces, at_once);
    assert_eq!(pieces.calls, whole.calls);
    assert_eq!(whole.calls, 5);
}
