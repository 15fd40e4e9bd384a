//! Retry strategies with exponential backoff and jitter.
//!
//! The library decides how many attempts an operation gets and how long to
//! wait after each failed one; running the attempts and sleeping is left to
//! the caller. Durations are milliseconds; ratios (the backoff multiplier
//! and the jitter bound) are in per-mille, so `2000` stands for a factor of
//! 2.0 and `100` for 10%.

use vstd::prelude::*;
use crate::common::error::{Error, error_kind, spec_is_retryable, spec_max_retries, spec_retry_delay_ms};

verus! {

/// Retry configuration
#[derive(Debug, Clone, Copy)]
pub struct RetryConfig {
    /// Maximum number of attempts
    pub max_attempts: u32,
    /// Base delay between retries (ms)
    pub base_delay_ms: u64,
    /// Maximum delay between retries (ms)
    pub max_delay_ms: u64,
    /// Exponential backoff multiplier, per-mille
    pub backoff_multiplier_permille: u32,
    /// Whether to add jitter to delays
    pub use_jitter: bool,
    /// Maximum jitter amount, per-mille of the delay
    pub max_jitter_permille: u32,
    /// Timeout for individual attempts (ms)
    pub attempt_timeout_ms: Option<u64>,
}

/// Retry strategy for different error types
#[derive(Debug, Clone)]
pub enum RetryStrategy {
    /// No retry
    NoRetry,
    /// Fixed delay between retries (ms)
    FixedDelay(u64),
    /// Exponential backoff with optional jitter
    ExponentialBackoff { config: RetryConfig },
    /// Custom retry logic: the delay after each failed attempt (ms)
    Custom { delays: Vec<u64> },
}

/// Retry policy for specific operations
#[derive(Debug, Clone)]
pub struct RetryPolicy {
    pub network_requests: RetryStrategy,
    pub model_inference: RetryStrategy,
    pub database_operations: RetryStrategy,
    pub file_operations: RetryStrategy,
    pub queue_operations: RetryStrategy,
}

/// Retry executor: a strategy applied to a named operation.
pub struct RetryExecutor {
    strategy: RetryStrategy,
    operation_name: String,
}

/// A retry configuration built from its values.
pub open spec fn mk_config(max_attempts: u32, base: u64, max: u64, mult: u32, jitter: bool, max_jitter: u32,
    timeout: Option<u64>) -> RetryConfig {
    RetryConfig {
        max_attempts,
        base_delay_ms: base,
        max_delay_ms: max,
        backoff_multiplier_permille: mult,
        use_jitter: jitter,
        max_jitter_permille: max_jitter,
        attempt_timeout_ms: timeout,
    }
}

/// The default configuration: 3 attempts, 1 s base, 30 s cap, factor 2,
/// 10% jitter, 30 s per attempt.
pub open spec fn default_retry_config() -> RetryConfig {
    mk_config(3, 1000, 30_000, 2000, true, 100, Some(30_000))
}

/// The configuration used for errors of a kind; `None` means no retry.
pub open spec fn config_for_kind(kind: int) -> Option<RetryConfig> {
    if kind == 1 {
        Some(mk_config(3, 1000, 10_000, 2000, true, 200, Some(30_000)))
    } else if kind == 9 {
        Some(mk_config(2, 2000, 15_000, 1500, true, 100, Some(45_000)))
    } else if kind == 7 {
        Some(mk_config(5, 5000, 60_000, 1500, true, 300, Some(60_000)))
    } else if kind == 2 {
        Some(mk_config(2, 3000, 20_000, 2000, true, 150, Some(60_000)))
    } else if kind == 3 || kind == 0 {
        None
    } else {
        Some(default_retry_config())
    }
}

/// The delay that follows `d` under exponential backoff: multiplied by the
/// factor (rounded down) and capped at the maximum delay.
pub open spec fn next_backoff_delay(d: u64, c: RetryConfig) -> u64 {
    let n = (d * c.backoff_multiplier_permille) / 1000;
    if n <= c.max_delay_ms { n as u64 } else { c.max_delay_ms }
}

/// The delay waited after the failed attempt number `i + 1` under
/// exponential backoff (before jitter).
pub open spec fn backoff_delay(c: RetryConfig, i: nat) -> u64
    decreases i,
{
    if i == 0 { c.base_delay_ms } else { next_backoff_delay(backoff_delay(c, (i - 1) as nat), c) }
}

/// How many times a strategy runs the operation at most.
pub open spec fn attempt_limit(s: RetryStrategy) -> nat {
    match s {
        RetryStrategy::NoRetry => 1,
        RetryStrategy::FixedDelay(_) => 3,
        RetryStrategy::ExponentialBackoff { config } => config.max_attempts as nat,
        RetryStrategy::Custom { delays } => delays@.len() + 1,
    }
}

/// The delay (before jitter) waited after the failed attempt number `i + 1`,
/// for `i + 1 < attempt_limit(s)`.
pub open spec fn retry_delay(s: RetryStrategy, i: nat) -> u64 {
    match s {
        RetryStrategy::NoRetry => 0,
        RetryStrategy::FixedDelay(d) => d,
        RetryStrategy::ExponentialBackoff { config } => backoff_delay(config, i),
        RetryStrategy::Custom { delays } => delays@[i as int],
    }
}

/// A delay with jitter added: `delay` grows by the fraction
/// `random / 32767` of `max_jitter_permille / 1000` of itself, rounded down.
pub open spec fn jittered(delay: u64, random: u64, max_jitter_permille: u32) -> int {
    delay + (delay * random * max_jitter_permille) / 32767000int
}

impl RetryConfig {
    /// The default configuration.
    pub fn default_config() -> (r: Self)
        ensures
            r == default_retry_config(),
    {
        RetryConfig {
            max_attempts: 3,
            base_delay_ms: 1000,
            max_delay_ms: 30_000,
            backoff_multiplier_permille: 2000,
            use_jitter: true,
            max_jitter_permille: 100,
            attempt_timeout_ms: Some(30_000),
        }
    }
}

impl RetryStrategy {
    /// Create exponential backoff strategy with default configuration
    pub fn exponential_backoff() -> (r: Self)
        ensures
            r == (RetryStrategy::ExponentialBackoff { config: default_retry_config() }),
    {
        RetryStrategy::ExponentialBackoff { config: RetryConfig::default_config() }
    }

    /// Create exponential backoff strategy with custom configuration
    pub fn exponential_backoff_with_config(config: RetryConfig) -> (r: Self)
        ensures
            r == (RetryStrategy::ExponentialBackoff { config }),
    {
        RetryStrategy::ExponentialBackoff { config }
    }

    /// Create fixed delay strategy
    pub fn fixed_delay(delay_ms: u64) -> (r: Self)
        ensures
            r == RetryStrategy::FixedDelay(delay_ms),
    {
        RetryStrategy::FixedDelay(delay_ms)
    }

    /// Create custom strategy with specific delays
    pub fn custom_delays(delays: Vec<u64>) -> (r: Self)
        ensures
            r matches RetryStrategy::Custom { delays: d } && d@ == delays@,
    {
        RetryStrategy::Custom { delays }
    }

    /// Get the strategy that should be used for a specific error:
    /// exponential backoff tuned to the error kind, or no retry for security
    /// and configuration errors.
    pub fn for_error(error: &Error) -> (r: Self)
        ensures
            match config_for_kind(error_kind(*error)) {
                Some(c) => r == (RetryStrategy::ExponentialBackoff { config: c }),
                None => r == RetryStrategy::NoRetry,
            },
    {
        match error {
            Error::Network(_) => RetryStrategy::ExponentialBackoff {
                config: RetryConfig {
                    max_attempts: 3,
                    base_delay_ms: 1000,
                    max_delay_ms: 10_000,
                    backoff_multiplier_permille: 2000,
                    use_jitter: true,
                    max_jitter_permille: 200,
                    attempt_timeout_ms: Some(30_000),
                },
            },
            Error::Timeout(_) => RetryStrategy::ExponentialBackoff {
                config: RetryConfig {
                    max_attempts: 2,
                    base_delay_ms: 2000,
                    max_delay_ms: 15_000,
                    backoff_multiplier_permille: 1500,
                    use_jitter: true,
                    max_jitter_permille: 100,
                    attempt_timeout_ms: Some(45_000),
                },
            },
            Error::ResourceExhausted(_) => RetryStrategy::ExponentialBackoff {
                config: RetryConfig {
                    max_attempts: 5,
                    base_delay_ms: 5000,
                    max_delay_ms: 60_000,
                    backoff_multiplier_permille: 1500,
                    use_jitter: true,
                    max_jitter_permille: 300,
                    attempt_timeout_ms: Some(60_000),
                },
            },
            Error::Model(_) => RetryStrategy::ExponentialBackoff {
                config: RetryConfig {
                    max_attempts: 2,
                    base_delay_ms: 3000,
                    max_delay_ms: 20_000,
                    backoff_multiplier_permille: 2000,
                    use_jitter: true,
                    max_jitter_permille: 150,
                    attempt_timeout_ms: Some(60_000),
                },
            },
            Error::Security(_) | Error::Configuration(_) => RetryStrategy::NoRetry,
            _ => RetryStrategy::ExponentialBackoff { config: RetryConfig::default_config() },
        }
    }
}

impl RetryPolicy {
    /// Default retry policy for each kind of operation.
    pub fn default_policy() -> (r: Self)
        ensures
            r.network_requests == (RetryStrategy::ExponentialBackoff {
                config: mk_config(3, 1000, 10_000, 2000, true, 200, Some(30_000)) }),
            r.model_inference == (RetryStrategy::ExponentialBackoff {
                config: mk_config(2, 3000, 20_000, 2000, true, 150, Some(60_000)) }),
            r.database_operations == (RetryStrategy::ExponentialBackoff {
                config: mk_config(5, 500, 5000, 1500, true, 100, Some(10_000)) }),
            r.file_operations == (RetryStrategy::ExponentialBackoff {
                config: mk_config(3, 1000, 5000, 2000, false, 0, Some(15_000)) }),
            r.queue_operations == (RetryStrategy::ExponentialBackoff {
                config: mk_config(5, 2000, 30_000, 1500, true, 250, Some(30_000)) }),
    {
        RetryPolicy {
            network_requests: RetryStrategy::exponential_backoff_with_config(RetryConfig {
                max_attempts: 3,
                base_delay_ms: 1000,
                max_delay_ms: 10_000,
                backoff_multiplier_permille: 2000,
                use_jitter: true,
                max_jitter_permille: 200,
                attempt_timeout_ms: Some(30_000),
            }),
            model_inference: RetryStrategy::exponential_backoff_with_config(RetryConfig {
                max_attempts: 2,
                base_delay_ms: 3000,
                max_delay_ms: 20_000,
                backoff_multiplier_permille: 2000,
                use_jitter: true,
                max_jitter_permille: 150,
                attempt_timeout_ms: Some(60_000),
            }),
            database_operations: RetryStrategy::exponential_backoff_with_config(RetryConfig {
                max_attempts: 5,
                base_delay_ms: 500,
                max_delay_ms: 5000,
                backoff_multiplier_permille: 1500,
                use_jitter: true,
                max_jitter_permille: 100,
                attempt_timeout_ms: Some(10_000),
            }),
            file_operations: RetryStrategy::exponential_backoff_with_config(RetryConfig {
                max_attempts: 3,
                base_delay_ms: 1000,
                max_delay_ms: 5000,
                backoff_multiplier_permille: 2000,
                use_jitter: false,
                max_jitter_permille: 0,
                attempt_timeout_ms: Some(15_000),
            }),
            queue_operations: RetryStrategy::exponential_backoff_with_config(RetryConfig {
                max_attempts: 5,
                base_delay_ms: 2000,
                max_delay_ms: 30_000,
                backoff_multiplier_permille: 1500,
                use_jitter: true,
                max_jitter_permille: 250,
                attempt_timeout_ms: Some(30_000),
            }),
        }
    }
}

fn next_delay(d: u64, c: &RetryConfig) -> (r: u64)
    ensures
        r == next_backoff_delay(d, *c),
{
    let m = c.backoff_multiplier_permille;
    proof {
        assert((d as u128) * (m as u128) <= 0xffff_ffff_ffff_ffffu128 * 0xffff_ffffu128) by (nonlinear_arith)
            requires d <= 0xffff_ffff_ffff_ffffu64, m <= 0xffff_ffffu32;
    }
    let n: u128 = ((d as u128) * (m as u128)) / 1000;
    if n <= c.max_delay_ms as u128 { n as u64 } else { c.max_delay_ms }
}

/// Adds jitter to a delay: `random` is a draw in `0..=32767` and the delay
/// grows by at most `max_jitter_permille` per mille of itself. A result past
/// `u64::MAX` milliseconds is clamped to it.
pub fn apply_jitter(delay_ms: u64, random: u64, max_jitter_permille: u32) -> (r: u64)
    requires
        random <= 32767,
    ensures
        r == if jittered(delay_ms, random, max_jitter_permille) <= u64::MAX {
            jittered(delay_ms, random, max_jitter_permille) as u64
        } else {
            u64::MAX
        },
        delay_ms <= r,
        r <= delay_ms + (delay_ms * max_jitter_permille) / 1000,
{
    proof {
        lemma_jitter_bounds(delay_ms, random, max_jitter_permille);
        assert((delay_ms as u128) * (random as u128) <= 0xffff_ffff_ffff_ffffu128 * 32767u128) by (nonlinear_arith)
            requires delay_ms <= 0xffff_ffff_ffff_ffffu64, random <= 32767u64;
        assert((delay_ms as u128) * (random as u128) * (max_jitter_permille as u128)
            <= 0xffff_ffff_ffff_ffffu128 * 32767u128 * 0xffff_ffffu128) by (nonlinear_arith)
            requires (delay_ms as u128) * (random as u128) <= 0xffff_ffff_ffff_ffffu128 * 32767u128,
                max_jitter_permille <= 0xffff_ffffu32;
    }
    let num: u128 = (delay_ms as u128) * (random as u128) * (max_jitter_permille as u128);
    let extra: u128 = num / 32_767_000u128;
    let total: u128 = delay_ms as u128 + extra;
    if total <= 0xffff_ffff_ffff_ffffu128 { total as u64 } else { 0xffff_ffff_ffff_ffffu64 }
}

/// Jitter never shortens a delay and adds at most the jitter bound; a bound
/// of at most 1000 per mille at most doubles it.
pub proof fn lemma_jitter_bounds(delay: u64, random: u64, max_jitter_permille: u32)
    requires
        random <= 32767,
    ensures
        delay <= jittered(delay, random, max_jitter_permille),
        jittered(delay, random, max_jitter_permille) <= delay + (delay * max_jitter_permille) / 1000,
        max_jitter_permille <= 1000 ==> jittered(delay, random, max_jitter_permille) <= 2 * delay,
{
    let d = delay as int;
    let x = random as int;
    let p = max_jitter_permille as int;
    let a = d * x * p;
    assert(0 <= a && a <= d * 32767 * p) by (nonlinear_arith)
        requires 0 <= x <= 32767, d >= 0, p >= 0, a == d * x * p;
    assert(0 <= a / 32767000 && a / 32767000 <= (d * 32767 * p) / 32767000) by (nonlinear_arith)
        requires 0 <= a <= d * 32767 * p;
    assert((d * 32767 * p) / 32767000 == (d * p) / 1000) by (nonlinear_arith)
        requires d >= 0, p >= 0;
    if p <= 1000 {
        assert((d * p) / 1000 <= d) by (nonlinear_arith)
            requires d >= 0, 0 <= p <= 1000;
    }
}

/// After the first retry, exponential backoff never waits longer than the
/// configured maximum delay.
pub proof fn lemma_backoff_capped(c: RetryConfig, i: nat)
    requires
        i >= 1,
    ensures
        backoff_delay(c, i) <= c.max_delay_ms,
{
}

/// With a factor of at least 1 and a base delay within the cap, the
/// exponential backoff delays never decrease from one retry to the next.
pub proof fn lemma_backoff_nondecreasing(c: RetryConfig, i: nat)
    requires
        c.backoff_multiplier_permille >= 1000,
        c.base_delay_ms <= c.max_delay_ms,
    ensures
        backoff_delay(c, i) <= backoff_delay(c, i + 1),
        backoff_delay(c, i) <= c.max_delay_ms,
    decreases i,
{
    if i > 0 {
        lemma_backoff_nondecreasing(c, (i - 1) as nat);
    }
    let d = backoff_delay(c, i);
    assert(d * c.backoff_multiplier_permille >= d * 1000) by (nonlinear_arith)
        requires c.backoff_multiplier_permille >= 1000, d >= 0;
    assert((d * c.backoff_multiplier_permille) / 1000 >= d) by (nonlinear_arith)
        requires d * c.backoff_multiplier_permille >= d * 1000, d >= 0;
}

impl RetryExecutor {
    /// The strategy.
    pub closed spec fn spec_strategy(&self) -> RetryStrategy {
        self.strategy
    }

    /// The name of the operation.
    pub closed spec fn spec_operation_name(&self) -> Seq<char> {
        self.operation_name@
    }

    /// Create a new retry executor
    pub fn new(strategy: RetryStrategy, operation_name: String) -> (r: Self)
        ensures
            r.spec_strategy() == strategy,
            r.spec_operation_name() == operation_name@,
    {
        RetryExecutor { strategy, operation_name }
    }

    /// Name of the operation.
    pub fn operation_name(&self) -> (r: &String)
        ensures
            r@ == self.spec_operation_name(),
    {
        &self.operation_name
    }

    /// The strategy.
    pub fn strategy(&self) -> (r: &RetryStrategy)
        ensures
            *r == self.spec_strategy(),
    {
        &self.strategy
    }

    /// How many times the operation is run at most: once without retry,
    /// three times with a fixed delay, `max_attempts` times with exponential
    /// backoff, and once more than there are custom delays.
    pub fn max_attempts(&self) -> (r: u128)
        ensures
            r == attempt_limit(self.spec_strategy()),
    {
        match &self.strategy {
            RetryStrategy::NoRetry => 1,
            RetryStrategy::FixedDelay(_) => 3,
            RetryStrategy::ExponentialBackoff { config } => config.max_attempts as u128,
            RetryStrategy::Custom { delays } => delays.len() as u128 + 1,
        }
    }

    /// The delays (ms, before jitter) waited after each failed attempt but
    /// the last: entry `i` follows the failure of attempt `i + 1`.
    pub fn delay_schedule(&self) -> (r: Vec<u64>)
        ensures
            r@.len() == if attempt_limit(self.spec_strategy()) == 0 { 0 } else {
                (attempt_limit(self.spec_strategy()) - 1) as nat },
            forall|i: int| 0 <= i < r@.len() ==> r@[i] == retry_delay(self.spec_strategy(), i as nat),
    {
        let mut out: Vec<u64> = Vec::new();
        match &self.strategy {
            RetryStrategy::NoRetry => {},
            RetryStrategy::FixedDelay(d) => {
                out.push(*d);
                out.push(*d);
            },
            RetryStrategy::ExponentialBackoff { config } => {
                if config.max_attempts > 0 {
                    let mut cur = config.base_delay_ms;
                    let mut i: u32 = 0;
                    while i + 1 < config.max_attempts
                        invariant
                            i + 1 <= config.max_attempts,
                            out@.len() == i,
                            cur == backoff_delay(*config, i as nat),
                            forall|j: int| 0 <= j < i ==> out@[j] == backoff_delay(*config, j as nat),
                        decreases config.max_attempts - i,
                    {
                        out.push(cur);
                        cur = next_delay(cur, config);
                        i = i + 1;
                    }
                }
            },
            RetryStrategy::Custom { delays } => {
                for i in 0..delays.len()
                    invariant
                        out@ == delays@.subrange(0, i as int),
                {
                    out.push(delays[i]);
                }
                proof {
                    assert(delays@.subrange(0, delays@.len() as int) == delays@);
                }
            },
        }
        out
    }

    /// What follows the attempt with index `attempt` (counting from 0) once
    /// it has ended: a success is returned at once; a failure is retried
    /// after the scheduled delay while attempts are left, and otherwise the
    /// retrying gives up with the last error.
    pub fn next_step(&self, attempt: u128, succeeded: bool) -> (r: RetryStep)
        ensures
            succeeded ==> r == RetryStep::Succeed,
            !succeeded && attempt + 1 < attempt_limit(self.spec_strategy())
                ==> r == RetryStep::RetryAfter(retry_delay(self.spec_strategy(), attempt as nat)),
            !succeeded && attempt + 1 >= attempt_limit(self.spec_strategy()) ==> r == RetryStep::GiveUp,
    {
        if succeeded {
            return RetryStep::Succeed;
        }
        let limit = self.max_attempts();
        if attempt < limit && attempt + 1 < limit {
            let delays = self.delay_schedule();
            let d = delays[attempt as usize];
            RetryStep::RetryAfter(d)
        } else {
            RetryStep::GiveUp
        }
    }
}

/// The decision after an attempt of a retried operation.
#[derive(Debug, Clone, Copy, PartialEq, Eq, Structural)]
pub enum RetryStep {
    /// The attempt succeeded: hand its result back.
    Succeed,
    /// The attempt failed: wait this many milliseconds (before jitter) and
    /// try again.
    RetryAfter(u64),
    /// The attempt failed and none is left: return its error.
    GiveUp,
}


/// The retry strategy chosen for an error agrees with the error's
/// classification: a retryable error is retried with exponential backoff
/// whose attempts are its retry budget and whose first delay is its
/// suggested delay; security and configuration errors are exactly the ones
/// never retried; every strategy chosen makes at least one attempt.
pub proof fn lemma_error_strategy_follows_classification(e: Error)
    ensures
        spec_is_retryable(error_kind(e)) ==> config_for_kind(error_kind(e)) is Some
            && config_for_kind(error_kind(e))->0.max_attempts == spec_max_retries(error_kind(e))
            && spec_retry_delay_ms(error_kind(e)) == Some(config_for_kind(error_kind(e))->0.base_delay_ms),
        config_for_kind(error_kind(e)) is None <==> (e is Security || e is Configuration),
        config_for_kind(error_kind(e)) is Some ==> config_for_kind(error_kind(e))->0.max_attempts >= 1,
{
}

} // verus!
