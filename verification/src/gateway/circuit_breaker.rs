//! Circuit breaker for fault tolerance: consecutive failures open the
//! circuit, a timeout lets a trial through, successes close it again.
//!
//! Times are readings of a monotonic clock in milliseconds, supplied by the
//! caller.

use vstd::prelude::*;

verus! {

/// Circuit breaker state
#[derive(Debug, Clone, Copy, PartialEq, Eq, Structural)]
pub enum CircuitState {
    /// Normal operation
    Closed,
    /// Failing fast
    Open,
    /// Testing if service recovered
    HalfOpen,
}

/// Circuit breaker configuration
#[derive(Debug, Clone, Copy)]
pub struct CircuitBreakerConfig {
    /// Failure threshold to open circuit
    pub failure_threshold: u32,
    /// Success threshold to close circuit from half-open
    pub success_threshold: u32,
    /// Timeout before trying half-open state, in milliseconds
    pub timeout_ms: u64,
    /// Window size for tracking failures, in milliseconds
    pub window_size_ms: u64,
}

impl CircuitBreakerConfig {
    /// Default configuration: 5 failures open, 3 successes close, 60 s
    /// timeout, 300 s window.
    pub fn default_config() -> (r: Self)
        ensures
            r.failure_threshold == 5,
            r.success_threshold == 3,
            r.timeout_ms == 60_000,
            r.window_size_ms == 300_000,
    {
        CircuitBreakerConfig { failure_threshold: 5, success_threshold: 3, timeout_ms: 60_000, window_size_ms: 300_000 }
    }
}

/// Circuit breaker metrics for monitoring
#[derive(Debug, Clone)]
pub struct CircuitBreakerMetrics {
    pub name: String,
    pub state: CircuitState,
    pub failure_count: u32,
    pub success_count: u32,
}

/// Error type for circuit breaker failures
#[derive(Debug)]
pub enum CircuitBreakerError {
    /// The breaker with this name is open and rejects requests.
    CircuitOpen(String),
    /// The protected operation failed with this message.
    ExecutionFailed(String),
}

/// Circuit breaker implementation
pub struct CircuitBreaker {
    config: CircuitBreakerConfig,
    state: CircuitState,
    failure_count: u32,
    success_count: u32,
    last_failure_time_ms: u64,
    name: String,
}

/// Whether the timeout has elapsed since the last failure at `now`.
pub open spec fn timeout_elapsed(last_failure: u64, timeout: u64, now: u64) -> bool {
    now >= last_failure && now - last_failure >= timeout
}

impl CircuitBreaker {
    /// Configuration.
    pub closed spec fn spec_config(&self) -> CircuitBreakerConfig {
        self.config
    }

    /// Current state.
    pub closed spec fn spec_state(&self) -> CircuitState {
        self.state
    }

    /// Failures since the circuit was last closed or a success was recorded.
    pub closed spec fn spec_failure_count(&self) -> u32 {
        self.failure_count
    }

    /// Successes while half-open.
    pub closed spec fn spec_success_count(&self) -> u32 {
        self.success_count
    }

    /// Time of the last failure.
    pub closed spec fn spec_last_failure(&self) -> u64 {
        self.last_failure_time_ms
    }

    /// Name.
    pub closed spec fn spec_name(&self) -> Seq<char> {
        self.name@
    }

    /// A closed breaker with zeroed counters.
    pub fn new(name: String, config: CircuitBreakerConfig) -> (r: Self)
        ensures
            r.spec_config() == config,
            r.spec_state() == CircuitState::Closed,
            r.spec_failure_count() == 0,
            r.spec_success_count() == 0,
            r.spec_last_failure() == 0,
            r.spec_name() == name@,
    {
        CircuitBreaker {
            config,
            state: CircuitState::Closed,
            failure_count: 0,
            success_count: 0,
            last_failure_time_ms: 0,
            name,
        }
    }

    /// Check at time `now_ms` if the circuit breaker allows the request. An
    /// open breaker whose timeout has elapsed since the last failure turns
    /// half-open (clearing its success count) and allows it.
    pub fn can_execute_at(&mut self, now_ms: u64) -> (r: bool)
        ensures
            r == match old(self).spec_state() {
                CircuitState::Closed => true,
                CircuitState::HalfOpen => true,
                CircuitState::Open => timeout_elapsed(old(self).spec_last_failure(), old(self).spec_config().timeout_ms, now_ms),
            },
            final(self).spec_state() == if old(self).spec_state() == CircuitState::Open && r {
                CircuitState::HalfOpen
            } else {
                old(self).spec_state()
            },
            final(self).spec_success_count() == if old(self).spec_state() == CircuitState::Open && r {
                0
            } else {
                old(self).spec_success_count()
            },
            final(self).spec_failure_count() == old(self).spec_failure_count(),
            final(self).spec_last_failure() == old(self).spec_last_failure(),
            final(self).spec_config() == old(self).spec_config(),
            final(self).spec_name() == old(self).spec_name(),
    {
        match self.state {
            CircuitState::Closed => true,
            CircuitState::Open => {
                if now_ms >= self.last_failure_time_ms
                    && now_ms - self.last_failure_time_ms >= self.config.timeout_ms {
                    self.transition_to_half_open();
                    true
                } else {
                    false
                }
            },
            CircuitState::HalfOpen => true,
        }
    }

    /// Record a successful execution: closed or open, the failure count is
    /// cleared; half-open, successes count and the success threshold closes
    /// the circuit.
    pub fn record_success(&mut self)
        ensures
            final(self).spec_config() == old(self).spec_config(),
            final(self).spec_name() == old(self).spec_name(),
            final(self).spec_last_failure() == old(self).spec_last_failure(),
            (final(self).spec_state(), final(self).spec_success_count(), final(self).spec_failure_count())
                == success_step(
                old(self).spec_state(),
                old(self).spec_success_count(),
                old(self).spec_failure_count(),
                old(self).spec_config().success_threshold,
            ),
    {
        match self.state {
            CircuitState::Closed => {
                self.failure_count = 0;
            },
            CircuitState::HalfOpen => {
                self.success_count = self.success_count.saturating_add(1);
                if self.success_count >= self.config.success_threshold {
                    self.transition_to_closed();
                }
            },
            CircuitState::Open => {
                self.failure_count = 0;
            },
        }
    }

    /// Record a failed execution at time `now_ms`: the failure counts and is
    /// stamped; a closed breaker opens when the count reaches the threshold,
    /// a half-open one opens at once.
    pub fn record_failure_at(&mut self, now_ms: u64)
        ensures
            final(self).spec_config() == old(self).spec_config(),
            final(self).spec_name() == old(self).spec_name(),
            final(self).spec_last_failure() == now_ms,
            final(self).spec_success_count() == old(self).spec_success_count(),
            (final(self).spec_state(), final(self).spec_failure_count()) == failure_step(
                old(self).spec_state(),
                old(self).spec_failure_count(),
                old(self).spec_config().failure_threshold,
            ),
    {
        self.failure_count = self.failure_count.saturating_add(1);
        self.last_failure_time_ms = now_ms;
        match self.state {
            CircuitState::Closed => {
                if self.failure_count >= self.config.failure_threshold {
                    self.transition_to_open();
                }
            },
            CircuitState::HalfOpen => {
                self.transition_to_open();
            },
            CircuitState::Open => {},
        }
    }

    /// Get current state
    pub fn state(&self) -> (r: CircuitState)
        ensures
            r == self.spec_state(),
    {
        self.state
    }

    /// Get metrics
    pub fn metrics(&self) -> (r: CircuitBreakerMetrics)
        ensures
            r.name@ == self.spec_name(),
            r.state == self.spec_state(),
            r.failure_count == self.spec_failure_count(),
            r.success_count == self.spec_success_count(),
    {
        CircuitBreakerMetrics {
            name: self.name.clone(),
            state: self.state,
            failure_count: self.failure_count,
            success_count: self.success_count,
        }
    }

    /// Name of the breaker.
    pub fn name(&self) -> (r: &String)
        ensures
            r@ == self.spec_name(),
    {
        &self.name
    }

    fn transition_to_open(&mut self)
        ensures
            *final(self) == (CircuitBreaker { state: CircuitState::Open, ..*old(self) }),
    {
        self.state = CircuitState::Open;
    }

    fn transition_to_half_open(&mut self)
        ensures
            *final(self) == (CircuitBreaker { state: CircuitState::HalfOpen, success_count: 0, ..*old(self) }),
    {
        self.state = CircuitState::HalfOpen;
        self.success_count = 0;
    }

    fn transition_to_closed(&mut self)
        ensures
            *final(self) == (CircuitBreaker { state: CircuitState::Closed, failure_count: 0, success_count: 0, ..*old(self) }),
    {
        self.state = CircuitState::Closed;
        self.failure_count = 0;
        self.success_count = 0;
    }
}

/// The state and failure count after one failure is recorded: the count
/// grows (saturating); a closed breaker opens when it reaches the
/// threshold, a half-open one opens at once.
pub open spec fn failure_step(state: CircuitState, failures: u32, threshold: u32) -> (CircuitState, u32) {
    let count = failures.saturating_add(1);
    match state {
        CircuitState::Closed => if count >= threshold {
            (CircuitState::Open, count)
        } else {
            (CircuitState::Closed, count)
        },
        _ => (CircuitState::Open, count),
    }
}

/// State, success count and failure count after one success is recorded:
/// half-open, successes count (saturating) and the threshold closes the
/// circuit, clearing both counts; otherwise the failure count is cleared.
pub open spec fn success_step(state: CircuitState, successes: u32, failures: u32, threshold: u32) -> (CircuitState, u32, u32) {
    match state {
        CircuitState::HalfOpen => {
            let s = successes.saturating_add(1);
            if s >= threshold {
                (CircuitState::Closed, 0, 0)
            } else {
                (CircuitState::HalfOpen, s, failures)
            }
        },
        _ => (state, successes, 0),
    }
}

/// State, success count and failure count after `n` successes in a row.
pub open spec fn after_successes(state: CircuitState, successes: u32, failures: u32, threshold: u32, n: nat) -> (CircuitState, u32, u32)
    decreases n,
{
    if n == 0 {
        (state, successes, failures)
    } else {
        let (st, sc, fc) = after_successes(state, successes, failures, threshold, (n - 1) as nat);
        success_step(st, sc, fc, threshold)
    }
}

/// A breaker that just turned half-open closes after `success_threshold`
/// successes in a row (at the first when the threshold is 0 or 1), and
/// stays half-open before that.
pub proof fn lemma_consecutive_successes_close(threshold: u32, failures: u32, n: nat)
    requires
        1 <= n,
        n <= u32::MAX,
    ensures
        n < threshold ==> after_successes(CircuitState::HalfOpen, 0, failures, threshold, n) == (CircuitState::HalfOpen, n as u32, failures),
        n == threshold || (threshold <= 1 && n == 1) ==> after_successes(CircuitState::HalfOpen, 0, failures, threshold, n).0
            == CircuitState::Closed,
    decreases n,
{
    let prev = after_successes(CircuitState::HalfOpen, 0, failures, threshold, (n - 1) as nat);
    assert(after_successes(CircuitState::HalfOpen, 0, failures, threshold, n) == success_step(prev.0, prev.1, prev.2, threshold));
    if n > 1 {
        lemma_consecutive_successes_close(threshold, failures, (n - 1) as nat);
        if n <= threshold {
            assert(prev == (CircuitState::HalfOpen, (n - 1) as u32, failures));
            assert(((n - 1) as u32).saturating_add(1) == n);
        }
    } else {
        assert(prev == (CircuitState::HalfOpen, 0u32, failures));
        assert(0u32.saturating_add(1) == 1);
    }
}

/// The state and failure count after `n` failures in a row.
pub open spec fn after_failures(state: CircuitState, failures: u32, threshold: u32, n: nat) -> (CircuitState, u32)
    decreases n,
{
    if n == 0 {
        (state, failures)
    } else {
        let (s, c) = after_failures(state, failures, threshold, (n - 1) as nat);
        failure_step(s, c, threshold)
    }
}

/// A closed breaker with no failures stays closed for the first
/// `failure_threshold - 1` failures in a row and is open from the
/// `failure_threshold`-th on (a threshold of 0 opens it at the first).
pub proof fn lemma_consecutive_failures_open(threshold: u32, n: nat)
    requires
        n <= u32::MAX,
    ensures
        after_failures(CircuitState::Closed, 0, threshold, n).1 == n,
        n < threshold ==> after_failures(CircuitState::Closed, 0, threshold, n).0 == CircuitState::Closed,
        n >= threshold && n > 0 ==> after_failures(CircuitState::Closed, 0, threshold, n).0 == CircuitState::Open,
    decreases n,
{
    if n > 0 {
        lemma_consecutive_failures_open(threshold, (n - 1) as nat);
    }
}


/// A success recorded by a closed breaker clears its failure count and keeps
/// it closed, so after it the breaker stays closed through the next
/// `failure_threshold - 1` failures: only failures with no success between
/// them open a closed breaker.
pub proof fn lemma_success_restarts_failure_run(successes: u32, failures: u32, success_threshold: u32,
    failure_threshold: u32, n: nat)
    requires
        n < failure_threshold,
    ensures
        success_step(CircuitState::Closed, successes, failures, success_threshold) == (CircuitState::Closed, successes, 0u32),
        after_failures(CircuitState::Closed, success_step(CircuitState::Closed, successes, failures, success_threshold).2,
            failure_threshold, n) == (CircuitState::Closed, n as u32),
{
    lemma_consecutive_failures_open(failure_threshold, n);
}


/// An open breaker lets a trial call through exactly from `timeout` ms
/// after its last failure on: never earlier, and at every later time.
pub proof fn lemma_timeout_admits_from_deadline(last_failure: u64, timeout: u64, now1: u64, now2: u64)
    ensures
        now1 < last_failure + timeout ==> !timeout_elapsed(last_failure, timeout, now1),
        now1 >= last_failure + timeout ==> timeout_elapsed(last_failure, timeout, now1),
        timeout_elapsed(last_failure, timeout, now1) && now1 <= now2 ==> timeout_elapsed(last_failure, timeout, now2),
{
}

} // verus!
