//! The gateway: its core request counters and health report, request
//! admission (method checks, client identification, rate limiting), a
//! counting circuit breaker, a TTL cache and a connection pool, and the
//! parsing of the host's resource counters.

pub mod circuit_breaker;
pub mod performance;
pub mod handlers;
pub mod health;
pub mod gateway;
pub mod middleware;
