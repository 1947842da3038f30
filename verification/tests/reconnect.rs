use angel_problem::reconnect::{Attempt, NextStep, StepOutcome, RETRY_PAUSE_MILLIS};

#[test]
fn an_exchange_begins_without_failures() {
    let attempt = Attempt::begin(3, false);
    assert_eq!(attempt, Attempt { connected: false, retries: 0, max_retries: 3 });
    assert_eq!(attempt.next_step(), NextStep::Connect);
    let attempt = Attempt::begin(3, true);
    assert_eq!(attempt.next_step(), NextStep::Exchange);
    assert_eq!(RETRY_PAUSE_MILLIS, 500);
}

#[test]
fn without_retries_an_exchange_is_given_up_at_once() {
    assert_eq!(Attempt::begin(0, false).next_step(), NextStep::GiveUp);
    assert_eq!(Attempt::begin(0, true).next_step(), NextStep::GiveUp);
}

#[test]
fn a_connection_is_followed_by_the_exchange() {
    let mut attempt = Attempt::begin(3, false);
    assert!(!attempt.record(StepOutcome::Connected));
    assert_eq!(attempt, Attempt { connected: true, retries: 0, max_retries: 3 });
    assert_eq!(attempt.next_step(), NextStep::Exchange);
    assert!(!attempt.record(StepOutcome::Answered));
    assert_eq!(attempt, Attempt { connected: true, retries: 0, max_retries: 3 });
}

#[test]
fn three_failed_connections_exhaust_three_retries() {
    let mut attempt = Attempt::begin(3, false);
    for failed in 1u32..=3 {
        assert_eq!(attempt.next_step(), NextStep::Connect);
        assert!(attempt.record(StepOutcome::ConnectFailed));
        assert_eq!(attempt.retries, failed);
        assert!(!attempt.connected);
    }
    assert_eq!(attempt.next_step(), NextStep::GiveUp);
    let spent = attempt;
    assert!(!attempt.record(StepOutcome::ConnectFailed));
    assert!(!attempt.record(StepOutcome::Connected));
    assert!(!attempt.record(StepOutcome::Lost));
    assert_eq!(attempt, spent);
}

#[test]
fn a_lost_exchange_drops_the_connection() {
    let mut attempt = Attempt::begin(3, true);
    assert!(attempt.record(StepOutcome::Lost));
    assert_eq!(attempt, Attempt { connected: false, retries: 1, max_retries: 3 });
    assert_eq!(attempt.next_step(), NextStep::Connect);
    assert!(!attempt.record(StepOutcome::Connected));
    assert_eq!(attempt.next_step(), NextStep::Exchange);
    assert!(attempt.record(StepOutcome::Lost));
    assert_eq!(attempt, Attempt { connected: false, retries: 2, max_retries: 3 });
    assert!(attempt.record(StepOutcome::ConnectFailed));
    assert_eq!(attempt.next_step(), NextStep::GiveUp);
}

#[test]
fn outcomes_of_the_wrong_step_are_ignored() {
    let mut attempt = Attempt::begin(3, false);
    assert!(!attempt.record(StepOutcome::Lost));
    assert!(!attempt.record(StepOutcome::Answered));
    assert_eq!(attempt, Attempt::begin(3, false));
    let mut attempt = Attempt::begin(3, true);
    assert!(!attempt.record(StepOutcome::ConnectFailed));
    assert!(!attempt.record(StepOutcome::Connected));
    assert_eq!(attempt, Attempt::begin(3, true));
}

#[test]
fn the_last_retry_does_not_overflow() {
    let mut attempt = Attempt { connected: false, retries: u32::MAX - 1, max_retries: u32::MAX };
    assert!(attempt.record(StepOutcome::ConnectFailed));
    assert_eq!(attempt.retries, u32::MAX);
    assert_eq!(attempt.next_step(), NextStep::GiveUp);
    assert!(!attempt.record(StepOutcome::ConnectFailed));
    assert_eq!(attempt.retries, u32::MAX);
}
