//! Verified core of an edge gateway for the Model Context Protocol: error
//! classification, circuit breakers, retry schedules, rate limiting, caches
//! (one on the `lru` crate), the offline request queue, load balancing,
//! request admission, model loading decisions and pipeline health tracking
//! and recovery.

pub mod common;
pub mod gateway;
pub mod pipeline_guard;
pub mod queue;
pub mod models;
pub mod router;
