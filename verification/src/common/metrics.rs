//! Metrics and health levels used for monitoring.

use vstd::prelude::*;

verus! {

/// Request status for metrics
#[derive(Debug, Clone)]
pub enum RequestStatus {
    Success,
    Error(String),
    Timeout,
    Queued,
}

/// Queue metrics for monitoring offline operations
#[derive(Debug, Clone, Copy)]
pub struct QueueMetrics {
    pub queue_size: u32,
    pub pending_requests: u32,
    pub failed_requests: u32,
    pub sync_attempts: u32,
    pub sync_successes: u32,
    pub avg_sync_time_ms: u64,
    pub oldest_request_age_ms: u64,
}

/// Security metrics for audit and monitoring
#[derive(Debug, Clone, Copy)]
pub struct SecurityMetrics {
    pub authentication_attempts: u32,
    pub authentication_failures: u32,
    pub authorization_denials: u32,
    pub encryption_operations: u32,
    pub key_rotations: u32,
    pub security_violations: u32,
    pub audit_events: u32,
}

/// Health levels for components
#[derive(Debug, Clone, Copy, PartialEq, Eq, Structural)]
pub enum HealthLevel {
    Healthy,
    Degraded,
    Critical,
    Unknown,
}

/// Numeric score of a health level.
pub open spec fn health_score(h: HealthLevel) -> u8 {
    match h {
        HealthLevel::Healthy => 100,
        HealthLevel::Degraded => 50,
        HealthLevel::Critical => 10,
        HealthLevel::Unknown => 0,
    }
}

/// Overall health of a set of components: unknown without components,
/// critical if any is critical, else degraded if any is degraded, else
/// healthy.
pub open spec fn overall_health_spec(levels: Seq<HealthLevel>) -> HealthLevel {
    if levels.len() == 0 {
        HealthLevel::Unknown
    } else if exists|i: int| 0 <= i < levels.len() && levels[i] == HealthLevel::Critical {
        HealthLevel::Critical
    } else if exists|i: int| 0 <= i < levels.len() && levels[i] == HealthLevel::Degraded {
        HealthLevel::Degraded
    } else {
        HealthLevel::Healthy
    }
}

impl HealthLevel {
    /// Get numeric value for comparison
    pub fn as_score(&self) -> (r: u8)
        ensures
            r == health_score(*self),
    {
        match self {
            HealthLevel::Healthy => 100,
            HealthLevel::Degraded => 50,
            HealthLevel::Critical => 10,
            HealthLevel::Unknown => 0,
        }
    }
}

/// Calculate overall health from the health levels of the components.
pub fn calculate_overall_health(levels: &Vec<HealthLevel>) -> (r: HealthLevel)
    ensures
        r == overall_health_spec(levels@),
{
    if levels.len() == 0 {
        return HealthLevel::Unknown;
    }
    let mut critical = false;
    let mut degraded = false;
    for i in 0..levels.len()
        invariant
            critical == (exists|j: int| 0 <= j < i && levels@[j] == HealthLevel::Critical),
            degraded == (exists|j: int| 0 <= j < i && levels@[j] == HealthLevel::Degraded),
    {
        match levels[i] {
            HealthLevel::Critical => { critical = true; },
            HealthLevel::Degraded => { degraded = true; },
            _ => {},
        }
    }
    if critical {
        HealthLevel::Critical
    } else if degraded {
        HealthLevel::Degraded
    } else {
        HealthLevel::Healthy
    }
}

/// Scores order the levels: healthy above degraded above critical above
/// unknown.
pub proof fn lemma_scores_order_levels()
    ensures
        health_score(HealthLevel::Healthy) > health_score(HealthLevel::Degraded),
        health_score(HealthLevel::Degraded) > health_score(HealthLevel::Critical),
        health_score(HealthLevel::Critical) > health_score(HealthLevel::Unknown),
{
}

/// One critical component makes the whole system critical, whatever the
/// others report.
pub proof fn lemma_one_critical_dominates(levels: Seq<HealthLevel>, i: int)
    requires
        0 <= i < levels.len(),
        levels[i] == HealthLevel::Critical,
    ensures
        overall_health_spec(levels) == HealthLevel::Critical,
{
}

} // verus!
