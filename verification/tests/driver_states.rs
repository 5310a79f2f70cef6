use minion::DriverState;
use minion::LoopState;

#[test]
fn running_stays_running_on_continue() {
    let next = DriverState::<u32>::Running.observe_step(Ok(LoopState::Continue));
    assert_eq!(next, DriverState::Running);
}

#[test]
fn running_stops_gracefully_on_break() {
    let next = DriverState::<u32>::Running.observe_step(Ok(LoopState::Break));
    assert_eq!(next, DriverState::StoppedGracefully);
}

#[test]
fn running_fails_with_the_steps_error() {
    let next = DriverState::<u32>::Running.observe_step(Err(17));
    assert_eq!(next, DriverState::Failed(17));
}

#[test]
fn running_ignores_a_flag_that_is_still_set() {
    let next = DriverState::<u32>::Running.observe_flag(true);
    assert_eq!(next, DriverState::Running);
}

#[test]
fn running_stops_on_a_cleared_flag() {
    let next = DriverState::<u32>::Running.observe_flag(false);
    assert_eq!(next, DriverState::StoppedByCancellation);
}

#[test]
fn graceful_stop_absorbs_every_event() {
    let stopped = DriverState::<u32>::StoppedGracefully;
    assert_eq!(stopped.observe_flag(false), DriverState::StoppedGracefully);
    let stopped = DriverState::<u32>::StoppedGracefully;
    assert_eq!(stopped.observe_flag(true), DriverState::StoppedGracefully);
    let stopped = DriverState::<u32>::StoppedGracefully;
    assert_eq!(stopped.observe_step(Ok(LoopState::Continue)), DriverState::StoppedGracefully);
    let stopped = DriverState::<u32>::StoppedGracefully;
    assert_eq!(stopped.observe_step(Err(1)), DriverState::StoppedGracefully);
}

#[test]
fn cancellation_absorbs_every_event() {
    let stopped = DriverState::<u32>::StoppedByCancellation;
    assert_eq!(stopped.observe_flag(true), DriverState::StoppedByCancellation);
    let stopped = DriverState::<u32>::StoppedByCancellation;
    assert_eq!(stopped.observe_step(Ok(LoopState::Break)), DriverState::StoppedByCancellation);
    let stopped = DriverState::<u32>::StoppedByCancellation;
    assert_eq!(stopped.observe_step(Err(2)), DriverState::StoppedByCancellation);
}

#[test]
fn failure_absorbs_every_event_and_keeps_its_error() {
    let failed = DriverState::Failed(5u32);
    assert_eq!(failed.observe_flag(false), DriverState::Failed(5));
    let failed = DriverState::Failed(5u32);
    assert_eq!(failed.observe_step(Ok(LoopState::Continue)), DriverState::Failed(5));
    let failed = DriverState::Failed(5u32);
    assert_eq!(failed.observe_step(Err(6)), DriverState::Failed(5));
}

#[test]
fn only_running_is_running() {
    assert!(DriverState::<u32>::Running.is_running());
    assert!(!DriverState::<u32>::StoppedGracefully.is_running());
    assert!(!DriverState::<u32>::StoppedByCancellation.is_running());
    assert!(!DriverState::Failed(0u32).is_running());
}

#[test]
fn a_running_loop_has_no_result_yet() {
    assert_eq!(DriverState::<u32>::Running.into_result(), None);
}

#[test]
fn both_kinds_of_stop_are_a_success() {
    assert_eq!(DriverState::<u32>::StoppedGracefully.into_result(), Some(Ok(())));
    assert_eq!(DriverState::<u32>::StoppedByCancellation.into_result(), Some(Ok(())));
}

#[test]
fn a_failure_hands_out_its_error_unchanged() {
    assert_eq!(DriverState::Failed(String::from("disk full")).into_result(), Some(Err(String::from("disk full"))));
}

#[test]
fn an_iteration_reads_the_flag_before_it_looks_at_the_step() {
    // The flag is cleared and the step would have failed: cancellation wins.
    let next = DriverState::<u32>::Running.observe_flag(false).observe_step(Err(9));
    assert_eq!(next, DriverState::StoppedByCancellation);
    assert_eq!(next.into_result(), Some(Ok(())));
}
