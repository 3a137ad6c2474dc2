use osm_gimmisn::retry::overpass_sleep;
use osm_gimmisn::retry::run_fetch;
use osm_gimmisn::retry::should_retry;
use osm_gimmisn::retry::AttemptOutcome;
use osm_gimmisn::retry::FetchResult;

#[test]
fn retry_cap_is_twenty() {
    assert!(should_retry(0));
    assert!(should_retry(19));
    assert!(!should_retry(20));
    assert!(!should_retry(21));
}

#[test]
fn success_on_first_attempt() {
    let outcomes = vec![AttemptOutcome::Written(7)];
    assert_eq!(run_fetch(&outcomes, true), FetchResult::Success(1));
}

#[test]
fn failures_then_success_writes_once_after_n_attempts() {
    let n = 5;
    let mut outcomes = vec![AttemptOutcome::TransportError; n - 1];
    outcomes.push(AttemptOutcome::Written(42));
    assert_eq!(run_fetch(&outcomes, true), FetchResult::Success(n as u8));
}

#[test]
fn success_on_the_last_permitted_attempt() {
    let mut outcomes = vec![AttemptOutcome::TransportError; 19];
    outcomes.push(AttemptOutcome::Written(1));
    assert_eq!(run_fetch(&outcomes, true), FetchResult::Success(20));
}

#[test]
fn always_failing_service_gives_up_quietly() {
    let outcomes = vec![AttemptOutcome::TransportError; 25];
    assert_eq!(run_fetch(&outcomes, true), FetchResult::GaveUp);
}

#[test]
fn success_after_the_cap_is_too_late() {
    let mut outcomes = vec![AttemptOutcome::TransportError; 20];
    outcomes.push(AttemptOutcome::Written(9));
    assert_eq!(run_fetch(&outcomes, true), FetchResult::GaveUp);
}

#[test]
fn short_write_is_retried() {
    let outcomes = vec![AttemptOutcome::Written(0), AttemptOutcome::Written(7)];
    assert_eq!(run_fetch(&outcomes, true), FetchResult::Success(2));
}

#[test]
fn short_write_counts_as_success_when_not_checked() {
    let outcomes = vec![AttemptOutcome::Written(0), AttemptOutcome::Written(7)];
    assert_eq!(run_fetch(&outcomes, false), FetchResult::Success(1));
}

#[test]
fn sleeps_until_the_limiter_reports_zero() {
    assert_eq!(overpass_sleep(&vec![3, 2, 0]), 2);
    assert_eq!(overpass_sleep(&vec![0]), 0);
    assert_eq!(overpass_sleep(&vec![5, 0, 4, 0]), 1);
}
