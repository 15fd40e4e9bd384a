use mcp_edge_gateway::common::error::Error;
use mcp_edge_gateway::pipeline_guard::alerts::{
    component_alert, recovery_failed_alert, recovery_success_alert, slack_emoji, AlertChannel, AlertConfig, AlertSeverity,
};
use mcp_edge_gateway::pipeline_guard::health_monitor::{consecutive_failure_reason, FailureTracker};
use mcp_edge_gateway::pipeline_guard::recovery_engine::{
    all_strategies_failed, next_recovery_step, RecoveryEngine, RecoveryResult, RecoveryStep, RecoveryStrategy,
};

fn attempt(success: bool) -> RecoveryResult {
    RecoveryResult { success, strategy_used: RecoveryStrategy::Restart, duration_ms: 5, error_message: None }
}

#[test]
fn unregistered_component_gets_a_restart() {
    let engine = RecoveryEngine::new();
    let s = engine.strategies_for("db");
    assert_eq!(s.len(), 1);
    assert!(matches!(s[0], RecoveryStrategy::Restart));
}

#[test]
fn registered_strategies_replace_earlier_ones() {
    let mut engine = RecoveryEngine::new();
    engine.register_strategies("db", vec![RecoveryStrategy::GracefulRestart]);
    engine.register_strategies(
        "db",
        vec![RecoveryStrategy::CircuitBreaker { timeout_seconds: 5 }, RecoveryStrategy::Fallback { backup_component_id: "db2".to_string() }],
    );
    let s = engine.strategies_for("db");
    assert_eq!(s.len(), 2);
    assert!(matches!(s[0], RecoveryStrategy::CircuitBreaker { timeout_seconds: 5 }));
    assert!(matches!(&s[1], RecoveryStrategy::Fallback { backup_component_id } if backup_component_id == "db2"));
}

#[test]
fn history_and_statistics() {
    let mut engine = RecoveryEngine::new();
    engine.record_result("a", attempt(false));
    engine.record_result("b", attempt(true));
    engine.record_result("a", attempt(true));
    assert!(engine.last_attempt_succeeded("a"));
    assert!(!engine.last_attempt_succeeded("zzz"));
    assert_eq!(engine.get_recovery_history("a").len(), 2);
    let stats = engine.get_recovery_stats();
    assert_eq!(stats, vec![("a".to_string(), (1, 2)), ("b".to_string(), (1, 1))]);
    engine.clear_history("a");
    assert!(engine.get_recovery_history("a").is_empty());
    assert_eq!(engine.get_recovery_stats().len(), 1);
}

#[test]
fn all_strategies_failed_message() {
    match all_strategies_failed("cache") {
        Error::Internal(m) => assert_eq!(m, "All recovery strategies failed for component: cache"),
        _ => panic!("expected an internal error"),
    }
}

#[test]
fn consecutive_failures_reach_the_threshold() {
    let mut t = FailureTracker::new(3);
    assert_eq!(t.record_check("c", false), None);
    assert_eq!(t.record_check("c", false), None);
    assert_eq!(t.record_check("c", false), Some(3));
    assert_eq!(t.failure_count("c"), 3);
    assert_eq!(t.record_check("c", true), None);
    assert_eq!(t.failure_count("c"), 0);
    assert_eq!(t.record_check("c", false), None);
    t.reset_failure_count("c");
    assert_eq!(t.failure_count("c"), 0);
    assert_eq!(consecutive_failure_reason(3), "Component failed 3 consecutive health checks");
}

#[test]
fn alert_threshold_and_batching() {
    let config = AlertConfig::default();
    assert_eq!(config.channels.len(), 1);
    assert!(matches!(config.channels[0], AlertChannel::Log));
    assert!(!config.accepts(AlertSeverity::Info));
    assert!(config.accepts(AlertSeverity::Warning));
    assert!(config.accepts(AlertSeverity::Emergency));
    assert!(!config.should_send_batch(0, 100));
    assert!(config.should_send_batch(10, 0));
    assert!(!config.should_send_batch(9, 29));
    assert!(config.should_send_batch(1, 30));
}

#[test]
fn standard_alert_texts() {
    let a = component_alert("db", "timeout");
    assert_eq!(a.severity, AlertSeverity::Critical);
    assert_eq!(a.title, "Component Health Alert");
    assert_eq!(a.message, "Component db is unhealthy: timeout");
    let b = recovery_success_alert("db");
    assert_eq!(b.severity, AlertSeverity::Info);
    assert_eq!(b.message, "Component db has been successfully recovered");
    let c = recovery_failed_alert("db", "boom");
    assert_eq!(c.severity, AlertSeverity::Emergency);
    assert_eq!(c.message, "Failed to recover component db: boom");
    assert_eq!(slack_emoji(AlertSeverity::Warning), ":warning:");
    assert_eq!(AlertSeverity::Critical.rank(), 2);
}

#[test]
fn failure_counts_list_failing_components() {
    let mut t = FailureTracker::new(3);
    t.record_check("db", false);
    t.record_check("db", false);
    t.record_check("cache", false);
    t.record_check("api", true);
    let mut counts: Vec<(String, u32)> = t.get_failure_counts().clone();
    counts.sort();
    assert_eq!(counts, vec![("cache".to_string(), 1), ("db".to_string(), 2)]);
}

#[test]
fn recovery_steps_try_strategies_in_order_until_one_succeeds() {
    let strategies = vec![RecoveryStrategy::Restart, RecoveryStrategy::GracefulRestart];
    assert!(matches!(next_recovery_step(&strategies, 0, false), RecoveryStep::TryNext(RecoveryStrategy::Restart)));
    assert!(matches!(next_recovery_step(&strategies, 1, false), RecoveryStep::TryNext(RecoveryStrategy::GracefulRestart)));
    assert!(matches!(next_recovery_step(&strategies, 1, true), RecoveryStep::Recovered));
    assert!(matches!(next_recovery_step(&strategies, 2, false), RecoveryStep::GiveUp));
    assert!(matches!(next_recovery_step(&Vec::new(), 0, false), RecoveryStep::GiveUp));
}
