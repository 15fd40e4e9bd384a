use mcp_edge_gateway::common::circuit_breaker::{CircuitBreaker, CircuitBreakerConfig, CircuitState};
use mcp_edge_gateway::gateway::circuit_breaker as gw;

#[test]
fn test_circuit_breaker_closed_state() {
    let config = CircuitBreakerConfig {
        failure_threshold: 3,
        success_threshold: 2,
        timeout_ms: 100,
        window_size: 5,
        minimum_requests: 2,
    };
    let mut cb = CircuitBreaker::new("test".to_string(), config);
    assert_eq!(cb.get_state(), CircuitState::Closed);
    assert!(cb.should_allow_call_at(0));
    cb.record_call_result_at(true, 0);
    cb.record_call_result_at(true, 0);
    assert_eq!(cb.get_state(), CircuitState::Closed);
}

#[test]
fn test_circuit_breaker_opens_on_failures() {
    let config = CircuitBreakerConfig {
        failure_threshold: 2,
        success_threshold: 2,
        timeout_ms: 100,
        window_size: 5,
        minimum_requests: 2,
    };
    let mut cb = CircuitBreaker::new("test".to_string(), config);
    cb.record_call_result_at(false, 0);
    cb.record_call_result_at(false, 0);
    cb.record_call_result_at(false, 0);
    assert_eq!(cb.get_state(), CircuitState::Open);
    assert!(!cb.should_allow_call_at(0));
}

#[test]
fn test_circuit_breaker_half_open_transition() {
    let config = CircuitBreakerConfig {
        failure_threshold: 2,
        success_threshold: 2,
        timeout_ms: 50,
        window_size: 5,
        minimum_requests: 2,
    };
    let mut cb = CircuitBreaker::new("test".to_string(), config);
    cb.record_call_result_at(false, 0);
    cb.record_call_result_at(false, 0);
    cb.record_call_result_at(false, 0);
    assert_eq!(cb.get_state(), CircuitState::Open);
    // 60 ms later the 50 ms timeout has passed
    assert!(cb.should_allow_call_at(60));
    assert_eq!(cb.get_state(), CircuitState::HalfOpen);
}

#[test]
fn half_open_circuit_closes_after_successes() {
    let config = CircuitBreakerConfig {
        failure_threshold: 2,
        success_threshold: 2,
        timeout_ms: 50,
        window_size: 5,
        minimum_requests: 2,
    };
    let mut cb = CircuitBreaker::new("test".to_string(), config);
    cb.record_call_result_at(false, 0);
    cb.record_call_result_at(false, 0);
    assert!(cb.should_allow_call_at(60));
    cb.record_call_result_at(true, 61);
    assert_eq!(cb.get_state(), CircuitState::HalfOpen);
    cb.record_call_result_at(true, 62);
    assert_eq!(cb.get_state(), CircuitState::Closed);
}

#[test]
fn open_circuit_rejects_before_timeout() {
    let config = CircuitBreakerConfig {
        failure_threshold: 2,
        success_threshold: 2,
        timeout_ms: 100,
        window_size: 5,
        minimum_requests: 2,
    };
    let mut cb = CircuitBreaker::new("test".to_string(), config);
    cb.record_call_result_at(false, 1000);
    cb.record_call_result_at(false, 1000);
    assert!(!cb.should_allow_call_at(1099));
    assert_eq!(cb.get_state(), CircuitState::Open);
    cb.reset();
    assert_eq!(cb.get_state(), CircuitState::Closed);
}

#[test]
fn circuit_breaker_test_circuit_breaker_opens_on_failures() {
    let config = gw::CircuitBreakerConfig {
        failure_threshold: 3,
        success_threshold: 2,
        timeout_ms: 100,
        window_size_ms: 60_000,
    };
    let mut cb = gw::CircuitBreaker::new("test".to_string(), config);
    assert_eq!(cb.state(), gw::CircuitState::Closed);
    assert!(cb.can_execute_at(0));
    cb.record_failure_at(0);
    cb.record_failure_at(0);
    assert_eq!(cb.state(), gw::CircuitState::Closed);
    cb.record_failure_at(0);
    assert_eq!(cb.state(), gw::CircuitState::Open);
    assert!(!cb.can_execute_at(0));
}

#[test]
fn circuit_breaker_test_circuit_breaker_half_open_transition() {
    let config = gw::CircuitBreakerConfig {
        failure_threshold: 2,
        success_threshold: 2,
        timeout_ms: 50,
        window_size_ms: 60_000,
    };
    let mut cb = gw::CircuitBreaker::new("test".to_string(), config);
    cb.record_failure_at(0);
    cb.record_failure_at(0);
    assert_eq!(cb.state(), gw::CircuitState::Open);
    assert!(cb.can_execute_at(60));
    assert_eq!(cb.state(), gw::CircuitState::HalfOpen);
}

#[test]
fn gateway_breaker_success_in_half_open_counts_toward_closing() {
    let config = gw::CircuitBreakerConfig {
        failure_threshold: 1,
        success_threshold: 2,
        timeout_ms: 10,
        window_size_ms: 60_000,
    };
    let mut cb = gw::CircuitBreaker::new("svc".to_string(), config);
    cb.record_failure_at(5);
    assert_eq!(cb.state(), gw::CircuitState::Open);
    assert!(cb.can_execute_at(20));
    cb.record_success();
    assert_eq!(cb.state(), gw::CircuitState::HalfOpen);
    cb.record_success();
    assert_eq!(cb.state(), gw::CircuitState::Closed);
}
