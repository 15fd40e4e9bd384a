//! Shared types, error handling, resilience primitives, configuration and
//! utilities, and the data model of the autonomous deployment, scaling,
//! self-healing and observability subsystems.

pub mod error;
pub mod utils;
pub mod circuit_breaker;
pub mod retry;
pub mod metrics;
pub mod types;
pub mod autonomous_scaling;
pub mod autonomous_deployment;
pub mod self_healing;
pub mod observability;
pub mod config;
