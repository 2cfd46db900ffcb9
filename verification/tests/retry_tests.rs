use electrumx::retry::{engine_start, on_failure, run_attempts, EngineState, FailStep};

#[test]
fn start_is_first_uri_no_retries() {
    let s = engine_start();
    assert_eq!(s.uri_index, 0);
    assert_eq!(s.attempts, 0);
}

#[test]
fn failure_retries_same_uri_while_budget_lasts() {
    let s = EngineState { uri_index: 0, attempts: 0 };
    match on_failure(s, 2, 3) {
        FailStep::Retry { next } => {
            assert_eq!(next.uri_index, 0);
            assert_eq!(next.attempts, 1);
        },
        _ => panic!("expected a retry on the same URI"),
    }
}

#[test]
fn failure_switches_uri_when_budget_spent() {
    let s = EngineState { uri_index: 0, attempts: 3 };
    match on_failure(s, 2, 3) {
        FailStep::Switch { next } => {
            assert_eq!(next.uri_index, 1);
            assert_eq!(next.attempts, 0);
        },
        _ => panic!("expected a switch to the next URI"),
    }
}

#[test]
fn failure_exhausts_after_last_uri_budget() {
    let s = EngineState { uri_index: 1, attempts: 3 };
    match on_failure(s, 2, 3) {
        FailStep::Exhausted => {},
        _ => panic!("expected exhaustion"),
    }
}

#[test]
fn first_attempt_succeeds_one_call() {
    // one URI, three retries allowed: success on the very first attempt
    let outcomes = vec![true, false, false, false];
    let (used, found) = run_attempts(&outcomes, 1, 3);
    assert_eq!(used, 1);
    assert_eq!(found, Some(0));
}

#[test]
fn per_uri_retry_then_success() {
    // two failures on the only URI, then a decodable response: three attempts
    let outcomes = vec![false, false, true, false];
    let (used, found) = run_attempts(&outcomes, 1, 3);
    assert_eq!(used, 3);
    assert_eq!(found, Some(2));
}

#[test]
fn failover_to_second_uri() {
    // first URI always fails (two attempts with one retry), second succeeds
    let outcomes = vec![false, false, true, false];
    let (used, found) = run_attempts(&outcomes, 2, 1);
    assert_eq!(used, 3);
    assert_eq!(found, Some(2));
    // attempt 2 belongs to the second URI
    assert_eq!(2 / (1 + 1), 1);
}

#[test]
fn exhaustion_uses_every_slot() {
    // two URIs, two retries each: six attempts, then the call gives up
    let outcomes = vec![false; 6];
    let (used, found) = run_attempts(&outcomes, 2, 2);
    assert_eq!(used, 6);
    assert_eq!(found, None);
}

#[test]
fn success_stops_all_later_attempts() {
    // later outcomes would also succeed, but only the first success counts
    let outcomes = vec![false, true, true, true];
    let (used, found) = run_attempts(&outcomes, 2, 1);
    assert_eq!(used, 2);
    assert_eq!(found, Some(1));
}
