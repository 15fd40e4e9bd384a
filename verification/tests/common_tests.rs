use mcp_edge_gateway::common::error::{Error, RecoveryStrategy};
use mcp_edge_gateway::common::metrics::{calculate_overall_health, HealthLevel};
use mcp_edge_gateway::common::retry::{apply_jitter, RetryConfig, RetryExecutor, RetryPolicy, RetryStep, RetryStrategy};

#[test]
fn error_classification() {
    let e = Error::Network("down".to_string());
    assert!(e.is_retryable());
    assert_eq!(e.category(), "network");
    assert!(e.retry_delay_ms().is_some());
    assert!(e.max_retries() > 0);
    let s = Error::Security("bad token".to_string());
    assert!(!s.is_retryable());
    assert!(s.should_alert());
    assert_eq!(s.retry_delay_ms(), None);
    assert_eq!(s.max_retries(), 0);
    match Error::Model("x".to_string()).recovery_strategy() {
        RecoveryStrategy::Fallback(target) => assert_eq!(target, "cloud"),
        other => panic!("unexpected strategy {:?}", other),
    }
    match Error::Timeout("slow".to_string()).with_context("fetch") {
        Error::Timeout(m) => assert_eq!(m, "fetch: slow"),
        other => panic!("unexpected error {:?}", other),
    }
}

#[test]
fn retry_schedules() {
    let config = RetryConfig {
        max_attempts: 5,
        base_delay_ms: 100,
        max_delay_ms: 1000,
        backoff_multiplier_permille: 2000,
        use_jitter: false,
        max_jitter_permille: 0,
        attempt_timeout_ms: None,
    };
    let ex = RetryExecutor::new(RetryStrategy::exponential_backoff_with_config(config), "op".to_string());
    assert_eq!(ex.max_attempts(), 5);
    assert_eq!(ex.delay_schedule(), vec![100, 200, 400, 800]);
    let fixed = RetryExecutor::new(RetryStrategy::fixed_delay(50), "op".to_string());
    assert_eq!((fixed.max_attempts(), fixed.delay_schedule()), (3, vec![50, 50]));
    let custom = RetryExecutor::new(RetryStrategy::custom_delays(vec![5, 7]), "op".to_string());
    assert_eq!((custom.max_attempts(), custom.delay_schedule()), (3, vec![5, 7]));
    let none = RetryExecutor::new(RetryStrategy::NoRetry, "op".to_string());
    assert_eq!((none.max_attempts(), none.delay_schedule()), (1, vec![]));
    assert_eq!(apply_jitter(1000, 0, 200), 1000);
    assert!(apply_jitter(1000, 32767, 200) <= 1200);
    let policy = RetryPolicy::default_policy();
    assert!(matches!(policy.network_requests, RetryStrategy::ExponentialBackoff { .. }));
    assert!(matches!(RetryStrategy::for_error(&Error::Security("x".to_string())), RetryStrategy::NoRetry));
}

#[test]
fn overall_health_levels() {
    assert_eq!(calculate_overall_health(&vec![]), HealthLevel::Unknown);
    assert_eq!(calculate_overall_health(&vec![HealthLevel::Healthy, HealthLevel::Unknown]), HealthLevel::Healthy);
    assert_eq!(calculate_overall_health(&vec![HealthLevel::Degraded, HealthLevel::Healthy]), HealthLevel::Degraded);
    assert_eq!(calculate_overall_health(&vec![HealthLevel::Degraded, HealthLevel::Critical]), HealthLevel::Critical);
    assert!(HealthLevel::Healthy.as_score() > HealthLevel::Critical.as_score());
}

#[test]
fn test_jitter_calculation() {
    let delay_ms: u64 = 1000;
    // a jitter of at most 10 % for every possible random draw
    for random in [0u64, 1, 16383, 32766, 32767] {
        let jittered = apply_jitter(delay_ms, random, 100);

        // Jittered delay should be within 10% of original
        let original_ms = delay_ms as f64;
        let jittered_ms = jittered as f64;
        let diff_percent = (jittered_ms - original_ms).abs() / original_ms;

        assert!(diff_percent <= 0.1);
    }
}

#[test]
fn retry_steps_stop_at_success_and_after_the_last_attempt() {
    let fixed = RetryExecutor::new(RetryStrategy::fixed_delay(50), "op".to_string());
    assert_eq!(fixed.next_step(0, true), RetryStep::Succeed);
    assert_eq!(fixed.next_step(0, false), RetryStep::RetryAfter(50));
    assert_eq!(fixed.next_step(1, false), RetryStep::RetryAfter(50));
    assert_eq!(fixed.next_step(2, false), RetryStep::GiveUp);
    let custom = RetryExecutor::new(RetryStrategy::custom_delays(vec![5, 7]), "op".to_string());
    assert_eq!(custom.next_step(1, false), RetryStep::RetryAfter(7));
    assert_eq!(custom.next_step(2, false), RetryStep::GiveUp);
    let none = RetryExecutor::new(RetryStrategy::NoRetry, "op".to_string());
    assert_eq!(none.next_step(0, false), RetryStep::GiveUp);
}

#[test]
fn jitter_bound_may_exceed_the_delay() {
    // a jitter bound of 200 % triples the delay at the largest draw
    assert_eq!(apply_jitter(1000, 32767, 2000), 3000);
    assert_eq!(apply_jitter(1000, 0, 2000), 1000);
}
