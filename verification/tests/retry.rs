use bypass::api::client::{
    after_response, backoff, exponential, is_retryable, RetryDecision, MAX_DELAY, MAX_RETRIES,
};

#[test]
fn retryable_statuses() {
    for status in [429u16, 500, 503, 504] {
        assert!(is_retryable(status));
    }
    for status in [200u16, 201, 400, 401, 404, 422, 501, 502] {
        assert!(!is_retryable(status));
    }
}

#[test]
fn exponential_schedule_doubles() {
    assert_eq!(exponential(0), 1);
    assert_eq!(exponential(1), 2);
    assert_eq!(exponential(2), 4);
    assert_eq!(exponential(3), 8);
    assert_eq!(exponential(4), 16);
}

#[test]
fn exponential_schedule_is_capped() {
    assert_eq!(exponential(5), 30);
    assert_eq!(exponential(6), 30);
    assert_eq!(exponential(63), 30);
    assert_eq!(exponential(64), 30);
    assert_eq!(exponential(u32::MAX), 30);
}

#[test]
fn backoff_never_shrinks_and_never_exceeds_the_cap() {
    for status in [429u16, 500, 503, 504] {
        let mut last = 0u64;
        for attempt in 0..=5u32 {
            let delay = backoff(status, attempt, None);
            assert!(delay >= last);
            assert!(delay <= MAX_DELAY);
            last = delay;
        }
    }
}

#[test]
fn retry_after_overrides_the_schedule() {
    assert_eq!(backoff(429, 0, Some("7")), 7);
    assert_eq!(backoff(429, 3, Some("7")), 7);
    assert_eq!(
        after_response(429, 0, Some("7")),
        RetryDecision::Retry { delay_secs: 7, attempt: 1 }
    );
}

#[test]
fn retry_after_is_capped() {
    assert_eq!(backoff(429, 0, Some("31")), 30);
    assert_eq!(backoff(429, 0, Some("3600")), 30);
    assert_eq!(backoff(429, 0, Some("18446744073709551615")), 30);
}

#[test]
fn retry_after_that_is_no_number_falls_back() {
    assert_eq!(backoff(429, 2, Some("soon")), 4);
    assert_eq!(backoff(429, 2, Some("")), 4);
    assert_eq!(backoff(429, 2, Some(" 7")), 4);
    assert_eq!(backoff(429, 2, Some("-7")), 4);
    assert_eq!(backoff(429, 2, Some("18446744073709551616")), 4);
    assert_eq!(backoff(429, 2, None), 4);
}

#[test]
fn retry_after_with_a_plus_sign_is_a_number() {
    assert_eq!(backoff(429, 2, Some("+9")), 9);
}

#[test]
fn retry_after_is_read_for_429_only() {
    assert_eq!(backoff(503, 1, Some("7")), 2);
    assert_eq!(backoff(500, 0, Some("7")), 1);
}

#[test]
fn sixth_response_is_delivered() {
    for status in [429u16, 500, 503, 504] {
        for attempt in 0..MAX_RETRIES {
            assert!(matches!(
                after_response(status, attempt, None),
                RetryDecision::Retry { .. }
            ));
        }
        assert_eq!(after_response(status, MAX_RETRIES, None), RetryDecision::Deliver);
        assert_eq!(after_response(status, MAX_RETRIES + 1, None), RetryDecision::Deliver);
    }
}

#[test]
fn other_statuses_are_delivered_at_once() {
    assert_eq!(after_response(200, 0, None), RetryDecision::Deliver);
    assert_eq!(after_response(404, 0, None), RetryDecision::Deliver);
    assert_eq!(after_response(502, 0, Some("7")), RetryDecision::Deliver);
}

#[test]
fn a_full_run_of_retries_waits_1_2_4_8_16() {
    let mut attempt = 0u32;
    let mut waits = Vec::new();
    loop {
        match after_response(503, attempt, None) {
            RetryDecision::Retry { delay_secs, attempt: next } => {
                waits.push(delay_secs);
                attempt = next;
            }
            RetryDecision::Deliver => break,
        }
    }
    assert_eq!(waits, vec![1, 2, 4, 8, 16]);
    assert_eq!(attempt, 5);
}
