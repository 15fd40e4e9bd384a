//! Self-healing pipeline guard: component state tracking, health
//! assessment, recovery bookkeeping and alert filtering.

pub mod pipeline_state;
pub mod alerts;
pub mod recovery_engine;
pub mod health_monitor;
