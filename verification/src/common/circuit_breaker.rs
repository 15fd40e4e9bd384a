//! Circuit breaker for resilient service calls, driven by a window of recent
//! call outcomes.
//!
//! Times are readings of a monotonic clock in milliseconds; the caller
//! supplies them, so every transition is a function of its inputs.

use vstd::prelude::*;

verus! {

/// Calls older than this many milliseconds are dropped before a call is admitted.
pub const RECENT_WINDOW_MS: u64 = 300_000;

/// Circuit breaker states
#[derive(Debug, Clone, Copy, PartialEq, Eq, Structural)]
pub enum CircuitState {
    /// Circuit is closed, requests flow normally
    Closed,
    /// Circuit is open, requests fail fast
    Open,
    /// Circuit is half-open, testing if service is recovered
    HalfOpen,
}

/// Circuit breaker configuration
#[derive(Debug, Clone, Copy)]
pub struct CircuitBreakerConfig {
    /// Failure threshold to open circuit (number of failures)
    pub failure_threshold: u32,
    /// Success threshold to close circuit from half-open (number of successes)
    pub success_threshold: u32,
    /// Timeout before moving from open to half-open, in milliseconds
    pub timeout_ms: u64,
    /// Window size for tracking failures
    pub window_size: u32,
    /// Minimum requests before considering circuit state
    pub minimum_requests: u32,
}

impl CircuitBreakerConfig {
    /// The default configuration: 5 failures per window of 10 open the
    /// circuit, 3 successes close it, 60 s timeout, at least 3 requests.
    pub fn default_config() -> (r: Self)
        ensures
            r.failure_threshold == 5,
            r.success_threshold == 3,
            r.timeout_ms == 60_000,
            r.window_size == 10,
            r.minimum_requests == 3,
    {
        CircuitBreakerConfig {
            failure_threshold: 5,
            success_threshold: 3,
            timeout_ms: 60_000,
            window_size: 10,
            minimum_requests: 3,
        }
    }
}

/// Outcome of one call, stamped with the time it was recorded.
#[derive(Debug, Clone, Copy)]
pub struct CallResult {
    pub timestamp_ms: u64,
    pub success: bool,
}

/// Mutable state of a breaker.
#[derive(Debug, Clone)]
pub struct CircuitBreakerState {
    pub current_state: CircuitState,
    pub failure_count: u32,
    pub success_count: u32,
    pub last_failure_time_ms: Option<u64>,
    pub next_attempt_ms: Option<u64>,
    pub consecutive_successes: u32,
    pub recent_calls: Vec<CallResult>,
}

/// Circuit breaker implementation
pub struct CircuitBreaker {
    name: String,
    config: CircuitBreakerConfig,
    state: CircuitBreakerState,
}

/// Circuit breaker statistics
#[derive(Debug, Clone)]
pub struct CircuitBreakerStats {
    pub name: String,
    pub current_state: CircuitState,
    pub total_calls: u32,
    pub successful_calls: u32,
    pub failed_calls: u32,
    pub consecutive_successes: u32,
    pub last_failure_time_ms: Option<u64>,
    pub next_attempt_time_ms: Option<u64>,
}

/// Circuit breaker error types
#[derive(Debug)]
pub enum CircuitBreakerError<E> {
    /// Circuit is open, call was rejected
    CircuitOpen,
    /// The underlying operation failed
    OperationFailed(E),
}

/// The calls of `s` recorded within the recent window before `now`.
pub open spec fn calls_within_window(s: Seq<CallResult>, now: u64) -> Seq<CallResult>
    decreases s.len(),
{
    if s.len() == 0 {
        s
    } else {
        let rest = calls_within_window(s.drop_last(), now);
        if s.last().timestamp_ms + RECENT_WINDOW_MS > now { rest.push(s.last()) } else { rest }
    }
}

/// Number of failed calls in `s`.
pub open spec fn failures_in(s: Seq<CallResult>) -> nat
    decreases s.len(),
{
    if s.len() == 0 { 0 } else { failures_in(s.drop_last()) + if s.last().success { 0nat } else { 1nat } }
}

/// The window after recording `c`: appended, and the oldest call dropped
/// when the window grows past its size.
pub open spec fn push_to_window(s: Seq<CallResult>, c: CallResult, window_size: u32) -> Seq<CallResult> {
    let t = s.push(c);
    if t.len() > window_size { t.drop_first() } else { t }
}

/// Whether the failure rate of the window reaches the configured rate
/// `failure_threshold / window_size`, once at least `minimum_requests` calls
/// are in the window.
pub open spec fn failure_rate_reached(calls: Seq<CallResult>, config: CircuitBreakerConfig) -> bool {
    &&& calls.len() >= config.minimum_requests
    &&& calls.len() > 0
    &&& config.window_size > 0
    &&& failures_in(calls) * config.window_size >= config.failure_threshold * calls.len()
}

/// The window's failure rate decides opening: a window whose share of
/// failures `failures / calls` lies below `failure_threshold / window_size`
/// never reaches the rate, and one with at least `minimum_requests` calls
/// whose share reaches it does.
pub proof fn lemma_failure_share_decides(calls: Seq<CallResult>, config: CircuitBreakerConfig)
    ensures
        failures_in(calls) * config.window_size < config.failure_threshold * calls.len()
            ==> !failure_rate_reached(calls, config),
        calls.len() >= config.minimum_requests && calls.len() > 0 && config.window_size > 0
            && failures_in(calls) * config.window_size >= config.failure_threshold * calls.len()
            ==> failure_rate_reached(calls, config),
        failure_rate_reached(calls, config) ==> calls.len() >= config.minimum_requests
            && failures_in(calls) * config.window_size >= config.failure_threshold * calls.len(),
{
}

proof fn lemma_failures_bounded(s: Seq<CallResult>)
    ensures
        failures_in(s) <= s.len(),
    decreases s.len(),
{
    if s.len() > 0 {
        lemma_failures_bounded(s.drop_last());
    }
}

/// Admission decision: a closed or half-open breaker admits; an open one
/// admits, turning half-open, once its next attempt time has come.
pub open spec fn admits(st: CircuitState, next_attempt: Option<u64>, now: u64) -> bool {
    match st {
        CircuitState::Closed => true,
        CircuitState::HalfOpen => true,
        CircuitState::Open => next_attempt matches Some(t) && now >= t,
    }
}

/// A closed or half-open breaker admits every call; an open one admits none
/// before its next attempt time and every call from then on.
pub proof fn lemma_admission_by_state(st: CircuitState, next_attempt: Option<u64>, now1: u64, now2: u64)
    ensures
        st != CircuitState::Open ==> admits(st, next_attempt, now1),
        st == CircuitState::Open && next_attempt is None ==> !admits(st, next_attempt, now1),
        st == CircuitState::Open && next_attempt is Some && now1 < next_attempt->0 ==> !admits(st, next_attempt, now1),
        admits(st, next_attempt, now1) && now1 <= now2 ==> admits(st, next_attempt, now2),
{
}

impl CircuitBreaker {
    /// Name of the breaker.
    pub closed spec fn spec_name(&self) -> Seq<char> {
        self.name@
    }

    /// Configuration of the breaker.
    pub closed spec fn spec_config(&self) -> CircuitBreakerConfig {
        self.config
    }

    /// Current state value.
    pub closed spec fn spec_state(&self) -> CircuitState {
        self.state.current_state
    }

    /// Failures counted while closed since the last success.
    pub closed spec fn spec_failure_count(&self) -> u32 {
        self.state.failure_count
    }

    /// Successes counted while closed.
    pub closed spec fn spec_success_count(&self) -> u32 {
        self.state.success_count
    }

    /// Consecutive successes.
    pub closed spec fn spec_consecutive_successes(&self) -> u32 {
        self.state.consecutive_successes
    }

    /// Time of the last failure recorded while closed.
    pub closed spec fn spec_last_failure(&self) -> Option<u64> {
        self.state.last_failure_time_ms
    }

    /// Earliest time an open breaker admits a trial call.
    pub closed spec fn spec_next_attempt(&self) -> Option<u64> {
        self.state.next_attempt_ms
    }

    /// Window of recent call outcomes, oldest first.
    pub closed spec fn spec_recent(&self) -> Seq<CallResult> {
        self.state.recent_calls@
    }

    /// The window never holds more calls than fit in a `u32`.
    pub closed spec fn wf(&self) -> bool {
        self.state.recent_calls@.len() <= u32::MAX
    }

    /// Create a new circuit breaker, closed and with an empty window.
    pub fn new(name: String, config: CircuitBreakerConfig) -> (r: Self)
        ensures
            r.wf(),
            r.spec_name() == name@,
            r.spec_config() == config,
            r.spec_state() == CircuitState::Closed,
            r.spec_failure_count() == 0,
            r.spec_success_count() == 0,
            r.spec_consecutive_successes() == 0,
            r.spec_last_failure() is None,
            r.spec_next_attempt() is None,
            r.spec_recent() == Seq::<CallResult>::empty(),
    {
        CircuitBreaker {
            name,
            config,
            state: CircuitBreakerState {
                current_state: CircuitState::Closed,
                failure_count: 0,
                success_count: 0,
                last_failure_time_ms: None,
                next_attempt_ms: None,
                consecutive_successes: 0,
                recent_calls: Vec::new(),
            },
        }
    }

    /// Check at time `now_ms` whether a call should be allowed. Calls older
    /// than the recent window are dropped first; an open breaker whose next
    /// attempt time has come turns half-open and admits.
    pub fn should_allow_call_at(&mut self, now_ms: u64) -> (r: bool)
        requires
            old(self).wf(),
        ensures
            final(self).wf(),
            r == admits(old(self).spec_state(), old(self).spec_next_attempt(), now_ms),
            final(self).spec_recent() == calls_within_window(old(self).spec_recent(), now_ms),
            final(self).spec_state() == if old(self).spec_state() == CircuitState::Open && r {
                CircuitState::HalfOpen
            } else {
                old(self).spec_state()
            },
            final(self).spec_consecutive_successes() == if old(self).spec_state() == CircuitState::Open && r {
                0
            } else {
                old(self).spec_consecutive_successes()
            },
            final(self).spec_name() == old(self).spec_name(),
            final(self).spec_config() == old(self).spec_config(),
            final(self).spec_failure_count() == old(self).spec_failure_count(),
            final(self).spec_success_count() == old(self).spec_success_count(),
            final(self).spec_last_failure() == old(self).spec_last_failure(),
            final(self).spec_next_attempt() == old(self).spec_next_attempt(),
    {
        let mut kept: Vec<CallResult> = Vec::new();
        let n = self.state.recent_calls.len();
        for i in 0..n
            invariant
                n == self.state.recent_calls@.len(),
                kept@ == calls_within_window(self.state.recent_calls@.subrange(0, i as int), now_ms),
                kept@.len() <= i,
        {
            let c = self.state.recent_calls[i];
            proof {
                let s = self.state.recent_calls@.subrange(0, i as int + 1);
                assert(s.drop_last() == self.state.recent_calls@.subrange(0, i as int));
            }
            if (c.timestamp_ms as u128) + (RECENT_WINDOW_MS as u128) > now_ms as u128 {
                kept.push(c);
            }
        }
        proof {
            assert(self.state.recent_calls@.subrange(0, n as int) == self.state.recent_calls@);
        }
        self.state.recent_calls = kept;
        match self.state.current_state {
            CircuitState::Closed => true,
            CircuitState::Open => {
                match self.state.next_attempt_ms {
                    Some(t) => {
                        if now_ms >= t {
                            self.state.current_state = CircuitState::HalfOpen;
                            self.state.consecutive_successes = 0;
                            true
                        } else {
                            false
                        }
                    },
                    None => false,
                }
            },
            CircuitState::HalfOpen => true,
        }
    }

    fn should_open_circuit(&self) -> (r: bool)
        requires
            self.wf(),
        ensures
            r == failure_rate_reached(self.state.recent_calls@, self.config),
    {
        let calls = &self.state.recent_calls;
        let total = calls.len();
        if total < self.config.minimum_requests as usize {
            return false;
        }
        if total == 0 || self.config.window_size == 0 {
            return false;
        }
        let mut failures: u64 = 0;
        for i in 0..total
            invariant
                total == calls@.len(),
                failures == failures_in(calls@.subrange(0, i as int)),
                failures <= i,
        {
            proof {
                let s = calls@.subrange(0, i as int + 1);
                assert(s.drop_last() == calls@.subrange(0, i as int));
            }
            if !calls[i].success {
                failures = failures + 1;
            }
        }
        proof {
            assert(calls@.subrange(0, total as int) == calls@);
        }
        let w = self.config.window_size;
        let th = self.config.failure_threshold;
        proof {
            assert((failures as u128) * (w as u128) <= 0xffff_ffffu128 * 0xffff_ffffu128) by (nonlinear_arith)
                requires failures <= 0xffff_ffffu64, w <= 0xffff_ffffu32;
            assert((th as u128) * (total as u128) <= 0xffff_ffffu128 * 0xffff_ffffu128) by (nonlinear_arith)
                requires total <= 0xffff_ffffusize, th <= 0xffff_ffffu32;
        }
        let lhs: u128 = (failures as u128) * (w as u128);
        let rhs: u128 = (th as u128) * (total as u128);
        lhs >= rhs
    }

    /// Record at time `now_ms` the outcome of a call.
    ///
    /// The outcome joins the window (the oldest call leaves when the window
    /// is full). Closed: a success counts and clears the failure count; a
    /// failure counts, is stamped, and opens the circuit when the window's
    /// failure rate reaches the configured rate. Half-open: successes count
    /// until the success threshold closes the circuit; a failure reopens it.
    /// Open: only the window changes.
    pub fn record_call_result_at(&mut self, success: bool, now_ms: u64)
        requires
            old(self).wf(),
        ensures
            final(self).wf(),
            final(self).spec_name() == old(self).spec_name(),
            final(self).spec_config() == old(self).spec_config(),
            ({
                let cfg = old(self).spec_config();
                let win = push_to_window(old(self).spec_recent(), CallResult { timestamp_ms: now_ms, success }, cfg.window_size);
                let reopen_at = Some(now_ms.saturating_add(cfg.timeout_ms));
                &&& final(self).spec_recent() == win
                &&& match old(self).spec_state() {
                    CircuitState::Closed => if success {
                        &&& final(self).spec_state() == CircuitState::Closed
                        &&& final(self).spec_success_count() == old(self).spec_success_count().saturating_add(1)
                        &&& final(self).spec_consecutive_successes() == old(self).spec_consecutive_successes().saturating_add(1)
                        &&& final(self).spec_failure_count() == 0
                        &&& final(self).spec_last_failure() == old(self).spec_last_failure()
                        &&& final(self).spec_next_attempt() == old(self).spec_next_attempt()
                    } else {
                        &&& final(self).spec_failure_count() == old(self).spec_failure_count().saturating_add(1)
                        &&& final(self).spec_consecutive_successes() == 0
                        &&& final(self).spec_success_count() == old(self).spec_success_count()
                        &&& final(self).spec_last_failure() == Some(now_ms)
                        &&& if failure_rate_reached(win, cfg) {
                            final(self).spec_state() == CircuitState::Open && final(self).spec_next_attempt() == reopen_at
                        } else {
                            final(self).spec_state() == CircuitState::Closed
                                && final(self).spec_next_attempt() == old(self).spec_next_attempt()
                        }
                    },
                    CircuitState::HalfOpen => if success {
                        let c = old(self).spec_consecutive_successes().saturating_add(1);
                        &&& final(self).spec_success_count() == old(self).spec_success_count()
                        &&& final(self).spec_last_failure() == old(self).spec_last_failure()
                        &&& final(self).spec_next_attempt() == old(self).spec_next_attempt()
                        &&& if c >= cfg.success_threshold {
                            &&& final(self).spec_state() == CircuitState::Closed
                            &&& final(self).spec_failure_count() == 0
                            &&& final(self).spec_consecutive_successes() == 0
                        } else {
                            &&& final(self).spec_state() == CircuitState::HalfOpen
                            &&& final(self).spec_failure_count() == old(self).spec_failure_count()
                            &&& final(self).spec_consecutive_successes() == c
                        }
                    } else {
                        &&& final(self).spec_state() == CircuitState::Open
                        &&& final(self).spec_next_attempt() == reopen_at
                        &&& final(self).spec_consecutive_successes() == 0
                        &&& final(self).spec_failure_count() == old(self).spec_failure_count().saturating_add(1)
                        &&& final(self).spec_success_count() == old(self).spec_success_count()
                        &&& final(self).spec_last_failure() == old(self).spec_last_failure()
                    },
                    CircuitState::Open => {
                        &&& final(self).spec_state() == CircuitState::Open
                        &&& final(self).spec_failure_count() == old(self).spec_failure_count()
                        &&& final(self).spec_success_count() == old(self).spec_success_count()
                        &&& final(self).spec_consecutive_successes() == old(self).spec_consecutive_successes()
                        &&& final(self).spec_last_failure() == old(self).spec_last_failure()
                        &&& final(self).spec_next_attempt() == old(self).spec_next_attempt()
                    },
                }
            }),
    {
        self.state.recent_calls.push(CallResult { timestamp_ms: now_ms, success });
        if self.state.recent_calls.len() > self.config.window_size as usize {
            self.state.recent_calls.remove(0);
            proof {
                assert(self.state.recent_calls@ =~= push_to_window(old(self).spec_recent(),
                    CallResult { timestamp_ms: now_ms, success }, self.config.window_size));
            }
        }
        match self.state.current_state {
            CircuitState::Closed => {
                if success {
                    self.state.success_count = self.state.success_count.saturating_add(1);
                    self.state.consecutive_successes = self.state.consecutive_successes.saturating_add(1);
                    self.state.failure_count = 0;
                } else {
                    self.state.failure_count = self.state.failure_count.saturating_add(1);
                    self.state.consecutive_successes = 0;
                    self.state.last_failure_time_ms = Some(now_ms);
                    if self.should_open_circuit() {
                        self.state.current_state = CircuitState::Open;
                        self.state.next_attempt_ms = Some(now_ms.saturating_add(self.config.timeout_ms));
                    }
                }
            },
            CircuitState::HalfOpen => {
                if success {
                    self.state.consecutive_successes = self.state.consecutive_successes.saturating_add(1);
                    if self.state.consecutive_successes >= self.config.success_threshold {
                        self.state.current_state = CircuitState::Closed;
                        self.state.failure_count = 0;
                        self.state.consecutive_successes = 0;
                    }
                } else {
                    self.state.current_state = CircuitState::Open;
                    self.state.next_attempt_ms = Some(now_ms.saturating_add(self.config.timeout_ms));
                    self.state.consecutive_successes = 0;
                    self.state.failure_count = self.state.failure_count.saturating_add(1);
                }
            },
            CircuitState::Open => {},
        }
    }

    /// Get current circuit breaker state
    pub fn get_state(&self) -> (r: CircuitState)
        ensures
            r == self.spec_state(),
    {
        self.state.current_state
    }

    /// Get circuit breaker statistics: the calls in the window, how many
    /// succeeded and failed, and the breaker's state and times.
    pub fn get_stats(&self) -> (r: CircuitBreakerStats)
        requires
            self.wf(),
        ensures
            r.name@ == self.spec_name(),
            r.current_state == self.spec_state(),
            r.total_calls == self.spec_recent().len(),
            r.failed_calls == failures_in(self.spec_recent()),
            r.successful_calls == self.spec_recent().len() - failures_in(self.spec_recent()),
            r.consecutive_successes == self.spec_consecutive_successes(),
            r.last_failure_time_ms == self.spec_last_failure(),
            r.next_attempt_time_ms == self.spec_next_attempt(),
    {
        let calls = &self.state.recent_calls;
        let total = calls.len();
        let mut failed: u32 = 0;
        for i in 0..total
            invariant
                total == calls@.len(),
                total <= u32::MAX,
                failed == failures_in(calls@.subrange(0, i as int)),
                failed <= i,
        {
            proof {
                let s = calls@.subrange(0, i as int + 1);
                assert(s.drop_last() == calls@.subrange(0, i as int));
            }
            if !calls[i].success {
                failed = failed + 1;
            }
        }
        proof {
            assert(calls@.subrange(0, total as int) == calls@);
        }
        CircuitBreakerStats {
            name: self.name.clone(),
            current_state: self.state.current_state,
            total_calls: total as u32,
            successful_calls: (total as u32) - failed,
            failed_calls: failed,
            consecutive_successes: self.state.consecutive_successes,
            last_failure_time_ms: self.state.last_failure_time_ms,
            next_attempt_time_ms: self.state.next_attempt_ms,
        }
    }

    /// Reset circuit breaker to closed state with cleared counters and window.
    pub fn reset(&mut self)
        ensures
            final(self).wf(),
            final(self).spec_name() == old(self).spec_name(),
            final(self).spec_config() == old(self).spec_config(),
            final(self).spec_state() == CircuitState::Closed,
            final(self).spec_failure_count() == 0,
            final(self).spec_success_count() == 0,
            final(self).spec_consecutive_successes() == 0,
            final(self).spec_last_failure() is None,
            final(self).spec_next_attempt() is None,
            final(self).spec_recent() == Seq::<CallResult>::empty(),
    {
        self.state.current_state = CircuitState::Closed;
        self.state.failure_count = 0;
        self.state.success_count = 0;
        self.state.consecutive_successes = 0;
        self.state.last_failure_time_ms = None;
        self.state.next_attempt_ms = None;
        self.state.recent_calls = Vec::new();
    }

    /// Force the circuit open at time `now_ms`; it admits again after the
    /// configured timeout.
    pub fn force_open_at(&mut self, now_ms: u64)
        requires
            old(self).wf(),
        ensures
            final(self).wf(),
            final(self).spec_state() == CircuitState::Open,
            final(self).spec_next_attempt() == Some(now_ms.saturating_add(old(self).spec_config().timeout_ms)),
            final(self).spec_name() == old(self).spec_name(),
            final(self).spec_config() == old(self).spec_config(),
            final(self).spec_failure_count() == old(self).spec_failure_count(),
            final(self).spec_success_count() == old(self).spec_success_count(),
            final(self).spec_consecutive_successes() == old(self).spec_consecutive_successes(),
            final(self).spec_last_failure() == old(self).spec_last_failure(),
            final(self).spec_recent() == old(self).spec_recent(),
    {
        self.state.current_state = CircuitState::Open;
        self.state.next_attempt_ms = Some(now_ms.saturating_add(self.config.timeout_ms));
    }

    /// Name of the breaker.
    pub fn name(&self) -> (r: &String)
        ensures
            r@ == self.spec_name(),
    {
        &self.name
    }
}

} // verus!
