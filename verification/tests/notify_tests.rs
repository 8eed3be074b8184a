use queuewatch::notify::AttemptOutcome;
use queuewatch::notify::DeliveryStatus;
use queuewatch::notify::RetryStep;
use queuewatch::notify::delivery_step;
use queuewatch::notify::may_attempt;
use queuewatch::notify::run_delivery;

#[test]
fn three_retries_all_transient_make_three_attempts_and_exhaust() {
    let outcomes = vec![
        AttemptOutcome::TransientFailure,
        AttemptOutcome::TransientFailure,
        AttemptOutcome::TransientFailure,
    ];
    let report = run_delivery(3, &outcomes);
    assert_eq!(report.attempts, 3);
    assert_eq!(report.status, DeliveryStatus::Exhausted);
}

#[test]
fn success_on_first_attempt_stops_at_once() {
    let outcomes = vec![
        AttemptOutcome::Delivered,
        AttemptOutcome::TransientFailure,
        AttemptOutcome::TransientFailure,
    ];
    let report = run_delivery(3, &outcomes);
    assert_eq!(report.attempts, 1);
    assert_eq!(report.status, DeliveryStatus::Delivered);
}

#[test]
fn success_after_transient_failures_takes_min_attempts() {
    let outcomes = vec![
        AttemptOutcome::TransientFailure,
        AttemptOutcome::TransientFailure,
        AttemptOutcome::Delivered,
        AttemptOutcome::Delivered,
    ];
    let report = run_delivery(4, &outcomes);
    assert_eq!(report.attempts, 3);
    assert_eq!(report.status, DeliveryStatus::Delivered);
}

#[test]
fn success_out_of_reach_exhausts_at_the_bound() {
    let outcomes = vec![
        AttemptOutcome::TransientFailure,
        AttemptOutcome::TransientFailure,
        AttemptOutcome::Delivered,
    ];
    let report = run_delivery(2, &outcomes);
    assert_eq!(report.attempts, 2);
    assert_eq!(report.status, DeliveryStatus::Exhausted);
}

#[test]
fn permanent_failure_stops_with_zero_retries() {
    let outcomes = vec![
        AttemptOutcome::PermanentFailure,
        AttemptOutcome::Delivered,
        AttemptOutcome::Delivered,
    ];
    let report = run_delivery(3, &outcomes);
    assert_eq!(report.attempts, 1);
    assert_eq!(report.status, DeliveryStatus::Failed);
}

#[test]
fn zero_allowed_attempts_never_send() {
    let outcomes = vec![AttemptOutcome::Delivered];
    let report = run_delivery(0, &outcomes);
    assert_eq!(report.attempts, 0);
    assert_eq!(report.status, DeliveryStatus::Exhausted);
}

#[test]
fn step_functions_drive_the_same_policy() {
    assert!(may_attempt(0, 3));
    assert!(!may_attempt(3, 3));
    assert_eq!(
        delivery_step(0, 3, &AttemptOutcome::TransientFailure),
        RetryStep::Retry { tried: 1 }
    );
    assert_eq!(
        delivery_step(2, 3, &AttemptOutcome::TransientFailure),
        RetryStep::Finished { status: DeliveryStatus::Exhausted }
    );
    assert_eq!(
        delivery_step(1, 3, &AttemptOutcome::Delivered),
        RetryStep::Finished { status: DeliveryStatus::Delivered }
    );
    assert_eq!(
        delivery_step(0, 3, &AttemptOutcome::PermanentFailure),
        RetryStep::Finished { status: DeliveryStatus::Failed }
    );
}
