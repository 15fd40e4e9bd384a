//! Request routing: distribution of requests over cloud endpoints.

pub mod load_balancer;
