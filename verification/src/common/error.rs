//! Error type of the gateway and its classification rules.

use vstd::prelude::*;
use vstd::string::StringExecFns;

verus! {

/// Main error type for gateway operations; every variant carries a message.
#[derive(Debug)]
pub enum Error {
    Configuration(String),
    Network(String),
    Model(String),
    Security(String),
    Queue(String),
    Routing(String),
    Telemetry(String),
    ResourceExhausted(String),
    InvalidRequest(String),
    Timeout(String),
    Serialization(String),
    Memory(String),
    Internal(String),
    Generic(String),
}

/// Recommended recovery strategy for an error.
#[derive(Debug, Clone, PartialEq, Eq)]
pub enum RecoveryStrategy {
    /// Retry the operation with exponential backoff
    Retry { max_attempts: u32, base_delay_ms: u64 },
    /// Fallback to alternative method
    Fallback(String),
    /// Circuit breaker - fail fast for some time
    CircuitBreaker { timeout_ms: u64 },
    /// Graceful degradation
    Degrade(String),
    /// No recovery possible
    NoRecovery,
}

/// Index of an error variant, in declaration order.
pub open spec fn error_kind(e: Error) -> int {
    match e {
        Error::Configuration(_) => 0,
        Error::Network(_) => 1,
        Error::Model(_) => 2,
        Error::Security(_) => 3,
        Error::Queue(_) => 4,
        Error::Routing(_) => 5,
        Error::Telemetry(_) => 6,
        Error::ResourceExhausted(_) => 7,
        Error::InvalidRequest(_) => 8,
        Error::Timeout(_) => 9,
        Error::Serialization(_) => 10,
        Error::Memory(_) => 11,
        Error::Internal(_) => 12,
        Error::Generic(_) => 13,
    }
}

/// The message an error carries.
pub open spec fn error_message(e: Error) -> Seq<char> {
    match e {
        Error::Configuration(m) => m@,
        Error::Network(m) => m@,
        Error::Model(m) => m@,
        Error::Security(m) => m@,
        Error::Queue(m) => m@,
        Error::Routing(m) => m@,
        Error::Telemetry(m) => m@,
        Error::ResourceExhausted(m) => m@,
        Error::InvalidRequest(m) => m@,
        Error::Timeout(m) => m@,
        Error::Serialization(m) => m@,
        Error::Memory(m) => m@,
        Error::Internal(m) => m@,
        Error::Generic(m) => m@,
    }
}

/// Retryable errors: network failures, timeouts and exhausted resources.
pub open spec fn spec_is_retryable(kind: int) -> bool {
    kind == 1 || kind == 9 || kind == 7
}

/// Metric category name of each error kind.
pub open spec fn spec_category(kind: int) -> Seq<char> {
    if kind == 0 { "configuration"@ }
    else if kind == 1 { "network"@ }
    else if kind == 2 { "model"@ }
    else if kind == 3 { "security"@ }
    else if kind == 4 { "queue"@ }
    else if kind == 5 { "routing"@ }
    else if kind == 6 { "telemetry"@ }
    else if kind == 7 { "resource"@ }
    else if kind == 8 { "request"@ }
    else if kind == 9 { "timeout"@ }
    else if kind == 10 { "serialization"@ }
    else if kind == 11 { "memory"@ }
    else if kind == 12 { "internal"@ }
    else { "generic"@ }
}

/// Severity (1-5, 5 most severe) of each error kind.
pub open spec fn spec_severity(kind: int) -> u8 {
    if kind == 3 || kind == 12 { 5 }
    else if kind == 0 || kind == 2 || kind == 11 { 4 }
    else if kind == 7 || kind == 4 || kind == 5 || kind == 13 { 3 }
    else if kind == 1 || kind == 9 || kind == 8 || kind == 10 { 2 }
    else { 1 }
}

/// Suggested retry delay of each error kind, in milliseconds.
pub open spec fn spec_retry_delay_ms(kind: int) -> Option<u64> {
    if kind == 1 { Some(1000) }
    else if kind == 9 { Some(2000) }
    else if kind == 7 { Some(5000) }
    else { None }
}

/// Maximum number of retries of each error kind.
pub open spec fn spec_max_retries(kind: int) -> u32 {
    if kind == 1 { 3 }
    else if kind == 9 { 2 }
    else if kind == 7 { 5 }
    else { 0 }
}

/// Whether `with_context` prefixes the message of this kind (all but
/// serialization and generic errors).
pub open spec fn takes_context(kind: int) -> bool {
    kind != 10 && kind != 13
}

/// Whether `r` is the recovery strategy recommended for errors of this kind.
pub open spec fn recovery_strategy_for(kind: int, r: RecoveryStrategy) -> bool {
    if kind == 1 {
        r == RecoveryStrategy::Retry { max_attempts: 3, base_delay_ms: 1000 }
    } else if kind == 9 {
        r == RecoveryStrategy::Retry { max_attempts: 2, base_delay_ms: 2000 }
    } else if kind == 7 {
        r == RecoveryStrategy::CircuitBreaker { timeout_ms: 30000 }
    } else if kind == 2 {
        r matches RecoveryStrategy::Fallback(t) && t@ == "cloud"@
    } else if kind == 5 {
        r matches RecoveryStrategy::Fallback(t) && t@ == "queue"@
    } else if kind == 3 || kind == 0 {
        r == RecoveryStrategy::NoRecovery
    } else if kind == 4 {
        r matches RecoveryStrategy::Degrade(t) && t@ == "skip_offline_queue"@
    } else {
        r == RecoveryStrategy::Retry { max_attempts: 1, base_delay_ms: 500 }
    }
}

/// The message with the context in front, as `with_context` builds it.
pub open spec fn contextualized(context: Seq<char>, message: Seq<char>) -> Seq<char> {
    context + ": "@ + message
}

fn prefix_message(context: &str, msg: String) -> (r: String)
    ensures
        r@ == contextualized(context@, msg@),
{
    let mut s = String::from_str(context);
    s.append(": ");
    s.append(msg.as_str());
    s
}

impl Clone for Error {
    fn clone(&self) -> (r: Self)
        ensures
            error_kind(r) == error_kind(*self),
            error_message(r) == error_message(*self),
    {
        match self {
            Error::Configuration(s) => Error::Configuration(s.clone()),
            Error::Network(s) => Error::Network(s.clone()),
            Error::Model(s) => Error::Model(s.clone()),
            Error::Security(s) => Error::Security(s.clone()),
            Error::Queue(s) => Error::Queue(s.clone()),
            Error::Routing(s) => Error::Routing(s.clone()),
            Error::Telemetry(s) => Error::Telemetry(s.clone()),
            Error::ResourceExhausted(s) => Error::ResourceExhausted(s.clone()),
            Error::InvalidRequest(s) => Error::InvalidRequest(s.clone()),
            Error::Timeout(s) => Error::Timeout(s.clone()),
            Error::Serialization(s) => Error::Serialization(s.clone()),
            Error::Memory(s) => Error::Memory(s.clone()),
            Error::Internal(s) => Error::Internal(s.clone()),
            Error::Generic(s) => Error::Generic(s.clone()),
        }
    }
}

impl Error {
    /// Check if the error is retryable
    pub fn is_retryable(&self) -> (r: bool)
        ensures
            r == spec_is_retryable(error_kind(*self)),
    {
        match self {
            Error::Network(_) | Error::Timeout(_) | Error::ResourceExhausted(_) => true,
            _ => false,
        }
    }

    /// Get error category for metrics
    pub fn category(&self) -> (r: &'static str)
        ensures
            r@ == spec_category(error_kind(*self)),
    {
        match self {
            Error::Configuration(_) => "configuration",
            Error::Network(_) => "network",
            Error::Model(_) => "model",
            Error::Security(_) => "security",
            Error::Queue(_) => "queue",
            Error::Routing(_) => "routing",
            Error::Telemetry(_) => "telemetry",
            Error::ResourceExhausted(_) => "resource",
            Error::InvalidRequest(_) => "request",
            Error::Timeout(_) => "timeout",
            Error::Serialization(_) => "serialization",
            Error::Memory(_) => "memory",
            Error::Internal(_) => "internal",
            Error::Generic(_) => "generic",
        }
    }

    /// Get severity level for error (1-5, where 5 is most severe)
    pub fn severity(&self) -> (r: u8)
        ensures
            r == spec_severity(error_kind(*self)),
    {
        match self {
            Error::Security(_) => 5,
            Error::Internal(_) => 5,
            Error::Configuration(_) => 4,
            Error::Model(_) => 4,
            Error::ResourceExhausted(_) => 3,
            Error::Queue(_) => 3,
            Error::Routing(_) => 3,
            Error::Network(_) => 2,
            Error::Timeout(_) => 2,
            Error::Telemetry(_) => 1,
            Error::Memory(_) => 4,
            Error::InvalidRequest(_) => 2,
            Error::Serialization(_) => 2,
            Error::Generic(_) => 3,
        }
    }

    /// Check if error should trigger alerts
    pub fn should_alert(&self) -> (r: bool)
        ensures
            r == (spec_severity(error_kind(*self)) >= 4),
    {
        self.severity() >= 4
    }

    /// Get suggested retry delay in milliseconds
    pub fn retry_delay_ms(&self) -> (r: Option<u64>)
        ensures
            r == spec_retry_delay_ms(error_kind(*self)),
    {
        if !self.is_retryable() {
            return None;
        }
        match self {
            Error::Network(_) => Some(1000),
            Error::Timeout(_) => Some(2000),
            Error::ResourceExhausted(_) => Some(5000),
            _ => None,
        }
    }

    /// Get maximum retry attempts for this error type
    pub fn max_retries(&self) -> (r: u32)
        ensures
            r == spec_max_retries(error_kind(*self)),
    {
        match self {
            Error::Network(_) => 3,
            Error::Timeout(_) => 2,
            Error::ResourceExhausted(_) => 5,
            _ => 0,
        }
    }

    /// Get recommended recovery strategy for this error
    pub fn recovery_strategy(&self) -> (r: RecoveryStrategy)
        ensures
            recovery_strategy_for(error_kind(*self), r),
    {
        match self {
            Error::Network(_) => RecoveryStrategy::Retry { max_attempts: 3, base_delay_ms: 1000 },
            Error::Timeout(_) => RecoveryStrategy::Retry { max_attempts: 2, base_delay_ms: 2000 },
            Error::ResourceExhausted(_) => RecoveryStrategy::CircuitBreaker { timeout_ms: 30000 },
            Error::Model(_) => RecoveryStrategy::Fallback(String::from_str("cloud")),
            Error::Routing(_) => RecoveryStrategy::Fallback(String::from_str("queue")),
            Error::Security(_) => RecoveryStrategy::NoRecovery,
            Error::Configuration(_) => RecoveryStrategy::NoRecovery,
            Error::Queue(_) => RecoveryStrategy::Degrade(String::from_str("skip_offline_queue")),
            _ => RecoveryStrategy::Retry { max_attempts: 1, base_delay_ms: 500 },
        }
    }

    /// Create error context with additional information
    pub fn with_context(self, context: &str) -> (r: Self)
        ensures
            error_kind(r) == error_kind(self),
            takes_context(error_kind(self)) ==> error_message(r) == contextualized(context@, error_message(self)),
            !takes_context(error_kind(self)) ==> error_message(r) == error_message(self),
    {
        match self {
            Error::Configuration(msg) => Error::Configuration(prefix_message(context, msg)),
            Error::Network(msg) => Error::Network(prefix_message(context, msg)),
            Error::Model(msg) => Error::Model(prefix_message(context, msg)),
            Error::Security(msg) => Error::Security(prefix_message(context, msg)),
            Error::Queue(msg) => Error::Queue(prefix_message(context, msg)),
            Error::Routing(msg) => Error::Routing(prefix_message(context, msg)),
            Error::Telemetry(msg) => Error::Telemetry(prefix_message(context, msg)),
            Error::ResourceExhausted(msg) => Error::ResourceExhausted(prefix_message(context, msg)),
            Error::InvalidRequest(msg) => Error::InvalidRequest(prefix_message(context, msg)),
            Error::Timeout(msg) => Error::Timeout(prefix_message(context, msg)),
            Error::Memory(msg) => Error::Memory(prefix_message(context, msg)),
            Error::Internal(msg) => Error::Internal(prefix_message(context, msg)),
            other => other,
        }
    }
}

/// A retryable error is exactly one that comes with a suggested retry delay,
/// and exactly one with a positive retry budget.
pub proof fn lemma_retryable_has_delay_and_budget(e: Error)
    ensures
        spec_is_retryable(error_kind(e)) <==> spec_retry_delay_ms(error_kind(e)) is Some,
        spec_is_retryable(error_kind(e)) <==> spec_max_retries(error_kind(e)) > 0,
{
}

/// Adding context keeps the classification of an error: its category,
/// severity, retryability, retry delay and retry budget are unchanged.
pub proof fn lemma_context_keeps_classification(e: Error, with_ctx: Error)
    requires
        error_kind(with_ctx) == error_kind(e),
    ensures
        spec_category(error_kind(with_ctx)) == spec_category(error_kind(e)),
        spec_severity(error_kind(with_ctx)) == spec_severity(error_kind(e)),
        spec_is_retryable(error_kind(with_ctx)) == spec_is_retryable(error_kind(e)),
        spec_retry_delay_ms(error_kind(with_ctx)) == spec_retry_delay_ms(error_kind(e)),
        spec_max_retries(error_kind(with_ctx)) == spec_max_retries(error_kind(e)),
{
}

/// Errors that trigger alerts are the severe ones, and none of them is retryable.
pub proof fn lemma_alerting_errors_are_not_retryable(e: Error)
    ensures
        spec_severity(error_kind(e)) >= 4 ==> !spec_is_retryable(error_kind(e)),
{
}


/// Which errors are retried, and how: network errors (after 1000 ms, at most
/// 3 retries), timeouts (after 2000 ms, at most 2 retries) and exhausted
/// resources (after 5000 ms, at most 5 retries) are retryable, whatever
/// their message; every other error is not retried, with no delay and no
/// retry budget.
pub proof fn lemma_retry_classification(e: Error)
    ensures
        spec_is_retryable(error_kind(e)) <==> (e is Network || e is Timeout || e is ResourceExhausted),
        e is Network ==> spec_retry_delay_ms(error_kind(e)) == Some(1000u64) && spec_max_retries(error_kind(e)) == 3,
        e is Timeout ==> spec_retry_delay_ms(error_kind(e)) == Some(2000u64) && spec_max_retries(error_kind(e)) == 2,
        e is ResourceExhausted ==> spec_retry_delay_ms(error_kind(e)) == Some(5000u64)
            && spec_max_retries(error_kind(e)) == 5,
        !(e is Network || e is Timeout || e is ResourceExhausted) ==> spec_retry_delay_ms(error_kind(e)) is None
            && spec_max_retries(error_kind(e)) == 0,
{
}


/// Severity ranks errors from 1 to 5: security and internal errors are the
/// most severe (5), telemetry errors the least (1), and the errors that
/// raise alerts (severity at least 4) are exactly the security, internal,
/// configuration, model and memory errors.
pub proof fn lemma_severity_ranks_errors(e: Error)
    ensures
        1 <= spec_severity(error_kind(e)) <= 5,
        (e is Security || e is Internal) <==> spec_severity(error_kind(e)) == 5,
        e is Telemetry <==> spec_severity(error_kind(e)) == 1,
        spec_severity(error_kind(e)) >= 4 <==> (e is Security || e is Internal || e is Configuration || e is Model
            || e is Memory),
{
}


/// The recovery recommended for an error agrees with its classification:
/// network errors and timeouts are retried with their own retry budget and
/// suggested delay, exhausted resources trip a circuit breaker, and security
/// and configuration errors have no recovery.
pub proof fn lemma_recovery_follows_classification(e: Error)
    ensures
        (e is Network || e is Timeout) ==> recovery_strategy_for(error_kind(e), RecoveryStrategy::Retry {
            max_attempts: spec_max_retries(error_kind(e)),
            base_delay_ms: spec_retry_delay_ms(error_kind(e))->0,
        }),
        e is ResourceExhausted ==> recovery_strategy_for(error_kind(e), RecoveryStrategy::CircuitBreaker { timeout_ms: 30000 }),
        (e is Security || e is Configuration) <==> recovery_strategy_for(error_kind(e), RecoveryStrategy::NoRecovery),
{
}

} // verus!
