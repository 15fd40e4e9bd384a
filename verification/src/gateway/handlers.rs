//! What the HTTP endpoints decide: the health report bodies, the labels of
//! health levels, and the validation of incoming MCP method names.

use crate::common::metrics::HealthLevel;
use std::collections::HashMap;
use vstd::prelude::*;
use vstd::string::StringSliceAdditionalSpecFns;

verus! {

/// Health check response
pub struct HealthResponse {
    pub status: String,
    pub version: String,
    pub uptime_seconds: u64,
    pub components: HashMap<String, ComponentStatusInfo>,
}

/// Component status information
pub struct ComponentStatusInfo {
    pub status: String,
    pub message: String,
    pub last_check: String,
}

/// The label an endpoint reports for a health level.
pub open spec fn health_label_text(level: HealthLevel) -> Seq<char> {
    match level {
        HealthLevel::Healthy => "healthy"@,
        HealthLevel::Degraded => "degraded"@,
        HealthLevel::Critical => "critical"@,
        HealthLevel::Unknown => "unknown"@,
    }
}

/// The label an endpoint reports for a health level.
pub fn health_label(level: HealthLevel) -> (r: &'static str)
    ensures
        r@ == health_label_text(level),
{
    match level {
        HealthLevel::Healthy => "healthy",
        HealthLevel::Degraded => "degraded",
        HealthLevel::Critical => "critical",
        HealthLevel::Unknown => "unknown",
    }
}

/// Longest accepted method name, in bytes.
pub const MAX_METHOD_NAME_BYTES: usize = 128;

/// Why an MCP request was rejected before processing.
#[derive(Debug, Clone, Copy, PartialEq, Eq, Structural)]
pub enum MethodRejection {
    /// The method name is empty.
    Empty,
    /// The method name is longer than 128 bytes.
    TooLong,
}

impl MethodRejection {
    /// The message returned to the client with the `INVALID_REQUEST` code.
    pub fn message(&self) -> (r: &'static str)
        ensures
            r@ == rejection_message(*self),
    {
        match self {
            MethodRejection::Empty => "Method cannot be empty",
            MethodRejection::TooLong => "Method name too long (max 128 characters)",
        }
    }
}

/// The message returned to the client for each rejection.
pub open spec fn rejection_message(r: MethodRejection) -> Seq<char> {
    match r {
        MethodRejection::Empty => "Method cannot be empty"@,
        MethodRejection::TooLong => "Method name too long (max 128 characters)"@,
    }
}

/// Checks the method name of an incoming MCP request: it must not be empty
/// and must be at most 128 bytes long in UTF-8.
pub fn check_method_name(method: &str) -> (r: Result<(), MethodRejection>)
    ensures
        method@.len() == 0 ==> r == Err::<(), MethodRejection>(MethodRejection::Empty),
        method@.len() > 0 && method.len() > 128 ==> r == Err::<(), MethodRejection>(
            MethodRejection::TooLong,
        ),
        method@.len() > 0 && method.len() <= 128 ==> r is Ok,
{
    if method.is_empty() {
        Err(MethodRejection::Empty)
    } else if method.len() > MAX_METHOD_NAME_BYTES {
        Err(MethodRejection::TooLong)
    } else {
        Ok(())
    }
}

} // verus!
