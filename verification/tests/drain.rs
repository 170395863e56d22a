use thetadatadx::drain::{batch_outcome, drain_step, terminal_poll_outcome, DrainStep, PollOutcome, RingPoll};

#[test]
fn a_faulted_session_never_ends_as_a_clean_shutdown() {
    assert_eq!(terminal_poll_outcome(true), PollOutcome::Failed);
    assert_eq!(terminal_poll_outcome(false), PollOutcome::Shutdown);
    assert_eq!(batch_outcome(0, RingPoll::Shutdown, true), PollOutcome::Failed);
    assert_eq!(batch_outcome(0, RingPoll::Shutdown, false), PollOutcome::Shutdown);
}

#[test]
fn delivered_events_are_reported_before_the_terminal_outcome() {
    assert_eq!(batch_outcome(3, RingPoll::Shutdown, true), PollOutcome::Drained(3));
    assert_eq!(batch_outcome(0, RingPoll::NoEvents, true), PollOutcome::Drained(0));
    assert_eq!(batch_outcome(7, RingPoll::Batch, false), PollOutcome::Drained(7));
}

#[test]
fn drain_loop_stops_only_on_terminal_outcomes() {
    assert_eq!(drain_step(PollOutcome::Shutdown), DrainStep::Finish(PollOutcome::Shutdown));
    assert_eq!(drain_step(PollOutcome::Failed), DrainStep::Finish(PollOutcome::Failed));
    assert_eq!(drain_step(PollOutcome::Drained(0)), DrainStep::WaitThenDrain);
    assert_eq!(drain_step(PollOutcome::Busy), DrainStep::WaitThenDrain);
    assert_eq!(drain_step(PollOutcome::Drained(5)), DrainStep::DrainAgain);
}
