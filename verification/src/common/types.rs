//! Common request and routing types of the gateway.

use vstd::prelude::*;

verus! {

/// Request priority levels
#[derive(Debug, Clone, Copy, PartialEq, Eq, Structural)]
pub enum Priority {
    Low,
    Normal,
    High,
    Critical,
}

/// Numeric level of a priority (1 = low ... 4 = critical).
pub open spec fn priority_level(p: Priority) -> u8 {
    match p {
        Priority::Low => 1,
        Priority::Normal => 2,
        Priority::High => 3,
        Priority::Critical => 4,
    }
}

impl Priority {
    /// Numeric level of the priority, which orders the priorities.
    pub fn level(&self) -> (r: u8)
        ensures
            r == priority_level(*self),
    {
        match self {
            Priority::Low => 1,
            Priority::Normal => 2,
            Priority::High => 3,
            Priority::Critical => 4,
        }
    }
}

/// Source of the request
#[derive(Debug, Clone)]
pub enum RequestSource {
    Local,
    Remote(String),
    Queue,
}

/// Routing decision for requests
#[derive(Debug, Clone)]
pub enum RoutingDecision {
    Local { model_id: String, estimated_latency_ms: u64 },
    Cloud { endpoint: String, estimated_latency_ms: u64 },
    Queue { reason: String, retry_after_ms: u64 },
}

/// Supported model formats
#[derive(Debug, Clone)]
pub enum ModelFormat {
    GGML,
    ONNX,
    TensorFlowLite,
    Custom(String),
}

} // verus!
