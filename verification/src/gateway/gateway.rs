//! Decisions of the gateway core: the in-flight request counters and the
//! health report assembled from the health checks of its components.

use crate::common::metrics::{calculate_overall_health, overall_health_spec, HealthLevel};
use vstd::prelude::*;

verus! {

/// Request counters of the gateway.
#[derive(Debug, Clone, Copy, PartialEq, Eq, Structural)]
pub struct RequestCounters {
    pub active_requests: u32,
    pub total_requests: u64,
}

impl RequestCounters {
    /// No request seen yet.
    pub fn new() -> (r: Self)
        ensures
            r == (RequestCounters { active_requests: 0, total_requests: 0 }),
    {
        RequestCounters { active_requests: 0, total_requests: 0 }
    }

    /// A request starts: one more in flight, one more in total.
    pub fn begin_request(&mut self)
        requires
            old(self).active_requests < u32::MAX,
            old(self).total_requests < u64::MAX,
        ensures
            final(self).active_requests == old(self).active_requests + 1,
            final(self).total_requests == old(self).total_requests + 1,
    {
        self.active_requests = self.active_requests + 1;
        self.total_requests = self.total_requests + 1;
    }

    /// A request finished, successfully or not: one fewer in flight (never
    /// below zero).
    pub fn end_request(&mut self)
        ensures
            final(self).active_requests == if old(self).active_requests > 0 {
                (old(self).active_requests - 1) as u32
            } else {
                0u32
            },
            final(self).total_requests == old(self).total_requests,
    {
        self.active_requests = self.active_requests.saturating_sub(1);
    }
}

/// The components whose health the gateway checks.
#[derive(Debug, Clone, Copy, PartialEq, Eq, Structural)]
pub enum GatewayComponent {
    Router,
    ModelEngine,
    Queue,
    Security,
    Telemetry,
}

/// The name a component is reported under.
pub open spec fn component_name_text(c: GatewayComponent) -> Seq<char> {
    match c {
        GatewayComponent::Router => "router"@,
        GatewayComponent::ModelEngine => "model_engine"@,
        GatewayComponent::Queue => "queue"@,
        GatewayComponent::Security => "security"@,
        GatewayComponent::Telemetry => "telemetry"@,
    }
}

/// The message reported for a component whose health check failed.
pub open spec fn check_failed_text(c: GatewayComponent) -> Seq<char> {
    match c {
        GatewayComponent::Router => "Router health check failed"@,
        GatewayComponent::ModelEngine => "Model engine health check failed"@,
        GatewayComponent::Queue => "Queue health check failed"@,
        GatewayComponent::Security => "Security health check failed"@,
        GatewayComponent::Telemetry => "Telemetry health check failed"@,
    }
}

impl GatewayComponent {
    /// The name the component is reported under.
    pub fn name(&self) -> (r: &'static str)
        ensures
            r@ == component_name_text(*self),
    {
        match self {
            GatewayComponent::Router => "router",
            GatewayComponent::ModelEngine => "model_engine",
            GatewayComponent::Queue => "queue",
            GatewayComponent::Security => "security",
            GatewayComponent::Telemetry => "telemetry",
        }
    }

    /// The message reported when the component's health check fails; its
    /// status is then critical.
    pub fn check_failed_message(&self) -> (r: &'static str)
        ensures
            r@ == check_failed_text(*self),
    {
        match self {
            GatewayComponent::Router => "Router health check failed",
            GatewayComponent::ModelEngine => "Model engine health check failed",
            GatewayComponent::Queue => "Queue health check failed",
            GatewayComponent::Security => "Security health check failed",
            GatewayComponent::Telemetry => "Telemetry health check failed",
        }
    }
}

/// The order in which the gateway checks its components.
pub fn checked_components() -> (r: Vec<GatewayComponent>)
    ensures
        r@ == seq![
            GatewayComponent::Router,
            GatewayComponent::ModelEngine,
            GatewayComponent::Queue,
            GatewayComponent::Security,
            GatewayComponent::Telemetry,
        ],
{
    let mut v: Vec<GatewayComponent> = Vec::new();
    v.push(GatewayComponent::Router);
    v.push(GatewayComponent::ModelEngine);
    v.push(GatewayComponent::Queue);
    v.push(GatewayComponent::Security);
    v.push(GatewayComponent::Telemetry);
    v
}

/// The status of a component: what its health check reported, or critical
/// when the check failed.
pub fn component_status(reported: Option<HealthLevel>) -> (r: HealthLevel)
    ensures
        r == match reported {
            Some(level) => level,
            None => HealthLevel::Critical,
        },
{
    match reported {
        Some(level) => level,
        None => HealthLevel::Critical,
    }
}

/// The gateway's overall health from its components' statuses, and whether
/// the gateway counts as healthy (its overall health is `Healthy`).
pub fn gateway_health(statuses: &Vec<HealthLevel>) -> (r: (HealthLevel, bool))
    ensures
        r.0 == overall_health_spec(statuses@),
        r.1 == (overall_health_spec(statuses@) == HealthLevel::Healthy),
{
    let overall = calculate_overall_health(statuses);
    let healthy = match overall {
        HealthLevel::Healthy => true,
        _ => false,
    };
    (overall, healthy)
}

} // verus!
