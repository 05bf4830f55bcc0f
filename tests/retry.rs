use ingrain::text::decimal;
use ingrain::{
    classify_response, status_is_success, AttemptOutcome, ExecutionError, RetryExecutor,
    RetryPolicy, Step,
};

fn http_failure() -> AttemptOutcome<u32> {
    AttemptOutcome::HttpFailure { status: 500, body: "Internal Error".to_string() }
}

/// Feeds outcomes to a fresh executor until it finishes; returns the attempts and the result.
fn drive(policy: RetryPolicy, outcomes: Vec<AttemptOutcome<u32>>) -> (u32, Option<Result<u32, ExecutionError>>) {
    let mut exec = RetryExecutor::new(policy);
    for o in outcomes {
        match exec.record(o) {
            Step::Retry { delay_ms } => assert_eq!(delay_ms, policy.retry_delay_ms),
            Step::Finish(r) => return (exec.attempts, Some(r)),
        }
    }
    (exec.attempts, None)
}

#[test]
fn always_failing_endpoint_gets_retries_plus_one_attempts() {
    for n in [0u16, 1, 2, 5] {
        let policy = RetryPolicy { max_retries: n, retry_delay_ms: 10 };
        let outcomes: Vec<AttemptOutcome<u32>> = (0..20).map(|_| http_failure()).collect();
        let (attempts, result) = drive(policy, outcomes);
        assert_eq!(attempts, n as u32 + 1);
        match result {
            Some(Err(ExecutionError::HttpStatus { status, body })) => {
                assert_eq!(status, 500);
                assert_eq!(body, "Internal Error");
            }
            _ => panic!("expected a status error"),
        }
    }
}

#[test]
fn zero_retries_means_one_attempt() {
    let policy = RetryPolicy { max_retries: 0, retry_delay_ms: 0 };
    let mut exec = RetryExecutor::new(policy);
    match exec.record(AttemptOutcome::<u32>::TransportFailure { reason: "refused".to_string() }) {
        Step::Finish(Err(ExecutionError::Transport { reason })) => assert_eq!(reason, "refused"),
        _ => panic!("expected the operation to end"),
    }
    assert_eq!(exec.attempts, 1);
}

#[test]
fn success_on_second_attempt_returns_value_after_two_attempts() {
    let policy = RetryPolicy { max_retries: 2, retry_delay_ms: 10 };
    let (attempts, result) = drive(policy, vec![http_failure(), AttemptOutcome::Success(7)]);
    assert_eq!(attempts, 2);
    assert!(matches!(result, Some(Ok(7))));
}

#[test]
fn last_failure_wins() {
    let policy = RetryPolicy { max_retries: 2, retry_delay_ms: 0 };
    let outcomes = vec![
        AttemptOutcome::TransportFailure { reason: "refused".to_string() },
        http_failure(),
        AttemptOutcome::DecodeFailure { reason: "expected value".to_string(), body: "oops".to_string() },
    ];
    let (attempts, result) = drive(policy, outcomes);
    assert_eq!(attempts, 3);
    match result {
        Some(Err(ExecutionError::Decode { reason, body })) => {
            assert_eq!(reason, "expected value");
            assert_eq!(body, "oops");
        }
        _ => panic!("expected the decode error of the last attempt"),
    }
}

#[test]
fn malformed_body_counts_like_status_failure() {
    let decoded: Result<u32, String> = Err("expected value at line 1".to_string());
    let outcome = classify_response(200, "{not json".to_string(), decoded);
    assert!(matches!(outcome, AttemptOutcome::DecodeFailure { .. }));
    let policy = RetryPolicy { max_retries: 1, retry_delay_ms: 5 };
    let mut exec = RetryExecutor::new(policy);
    assert!(matches!(exec.record(outcome), Step::Retry { delay_ms: 5 }));
    let outcome2 = classify_response(503, "busy".to_string(), Ok(1u32));
    match exec.record(outcome2) {
        Step::Finish(Err(ExecutionError::HttpStatus { status, body })) => {
            assert_eq!(status, 503);
            assert_eq!(body, "busy");
        }
        _ => panic!("expected a status error"),
    }
    assert_eq!(exec.attempts, 2);
}

#[test]
fn error_status_wins_over_decodable_body() {
    let outcome = classify_response(500, "{\"message\": \"x\"}".to_string(), Ok(3u32));
    assert!(matches!(outcome, AttemptOutcome::HttpFailure { status: 500, .. }));
    let ok = classify_response(204, String::new(), Ok(3u32));
    assert!(matches!(ok, AttemptOutcome::Success(3)));
}

#[test]
fn replay_failure_is_fatal() {
    let policy = RetryPolicy { max_retries: 3, retry_delay_ms: 1 };
    let mut exec = RetryExecutor::new(policy);
    assert!(matches!(
        exec.record(AttemptOutcome::<u32>::NotReplayable),
        Step::Finish(Err(ExecutionError::Replay))
    ));
    assert_eq!(exec.attempts, 1);
}

#[test]
fn success_statuses() {
    assert!(!status_is_success(199));
    assert!(status_is_success(200));
    assert!(status_is_success(299));
    assert!(!status_is_success(300));
    assert!(!status_is_success(500));
}

#[test]
fn status_error_message_has_code_and_body() {
    let e = ExecutionError::HttpStatus { status: 500, body: "model not found".to_string() };
    let m = e.message();
    assert_eq!(m, "Request failed with status: 500 (body: model not found)");
    assert!(m.contains("500"));
    assert!(m.contains("model not found"));
}

#[test]
fn other_error_messages() {
    assert_eq!(
        ExecutionError::Transport { reason: "timed out".to_string() }.message(),
        "Network error: timed out"
    );
    assert_eq!(
        ExecutionError::Decode { reason: "missing field".to_string(), body: "{}".to_string() }.message(),
        "Failed to parse response: missing field (body: {})"
    );
    assert_eq!(ExecutionError::Replay.message(), "Failed to clone request");
}

#[test]
fn decimal_forms() {
    assert_eq!(decimal(0), "0");
    assert_eq!(decimal(7), "7");
    assert_eq!(decimal(10), "10");
    assert_eq!(decimal(404), "404");
    assert_eq!(decimal(65535), "65535");
    assert_eq!(decimal(u64::MAX), "18446744073709551615");
}

