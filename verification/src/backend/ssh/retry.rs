//! Retry strategies and policies for SSH operations (delays in
//! milliseconds; the exponential multiplier in thousandths, 2000 for 2.0).
use vstd::prelude::*;
use crate::encoding::{contains_chars, contains_seq};
use crate::text::{chars_of, lowercase_of, to_lowercase};

verus! {

/// Retry strategy.
#[derive(Debug, Clone, Copy, PartialEq, Eq, Structural)]
pub enum RetryStrategy {
    /// No retries.
    NoRetry,
    /// Fixed delay between retries.
    Fixed {
        /// Delay between attempts.
        delay: u64,
        /// Maximum attempts.
        max_attempts: u32,
    },
    /// Exponential backoff.
    Exponential {
        /// Initial delay.
        initial_delay: u64,
        /// Maximum delay.
        max_delay: u64,
        /// Multiplier for each attempt, in thousandths.
        multiplier_milli: u64,
        /// Maximum attempts.
        max_attempts: u32,
    },
    /// Linear backoff.
    Linear {
        /// Initial delay.
        initial_delay: u64,
        /// Increment per attempt.
        increment: u64,
        /// Maximum delay.
        max_delay: u64,
        /// Maximum attempts.
        max_attempts: u32,
    },
}

/// The smaller of two integers.
pub open spec fn min_of(a: int, b: int) -> int {
    if a <= b { a } else { b }
}

/// The exponential delay before retry `attempt`, in nanoseconds: the
/// initial delay multiplied once per attempt, each product rounded down to a
/// nanosecond (the resolution of a `Duration`).
pub open spec fn exp_nanos(initial: u64, multiplier_milli: u64, attempt: nat) -> int
    decreases attempt,
{
    if attempt == 0 {
        initial * 1_000_000
    } else {
        exp_nanos(initial, multiplier_milli, (attempt - 1) as nat) * multiplier_milli / 1000
    }
}

/// The exponential delay before retry `attempt`, in milliseconds: the
/// initial delay times the multiplier to the power `attempt`, then limited to
/// the maximum once.
pub open spec fn exp_delay(initial: u64, max: u64, multiplier_milli: u64, attempt: nat) -> int {
    min_of(exp_nanos(initial, multiplier_milli, attempt) / 1_000_000, max as int)
}

/// The delay before retry `attempt`, or `None` when no retry is left.
pub open spec fn delay_spec(s: RetryStrategy, attempt: u32) -> Option<int> {
    match s {
        RetryStrategy::NoRetry => None,
        RetryStrategy::Fixed { delay, max_attempts } => if attempt < max_attempts {
            Some(delay as int)
        } else {
            None
        },
        RetryStrategy::Exponential { initial_delay, max_delay, multiplier_milli, max_attempts } => if attempt
            < max_attempts {
            Some(exp_delay(initial_delay, max_delay, multiplier_milli, attempt as nat))
        } else {
            None
        },
        RetryStrategy::Linear { initial_delay, increment, max_delay, max_attempts } => if attempt < max_attempts {
            Some(min_of(initial_delay + increment * attempt, max_delay as int))
        } else {
            None
        },
    }
}

/// The delay in nanoseconds is never negative.
pub proof fn lemma_exp_nanos_nonneg(initial: u64, m: u64, attempt: nat)
    ensures
        exp_nanos(initial, m, attempt) >= 0,
    decreases attempt,
{
    if attempt > 0 {
        lemma_exp_nanos_nonneg(initial, m, (attempt - 1) as nat);
        let d = exp_nanos(initial, m, (attempt - 1) as nat);
        assert(d * m >= 0) by (nonlinear_arith)
            requires
                d >= 0,
        ;
    }
}

/// The exponential delay stays within `0..=max`.
pub proof fn lemma_exp_delay_bounds(initial: u64, max: u64, m: u64, attempt: nat)
    ensures
        0 <= exp_delay(initial, max, m, attempt) <= max,
{
    lemma_exp_nanos_nonneg(initial, m, attempt);
}

/// With a multiplier of at least one, the delay in nanoseconds never shrinks
/// from one attempt to a later one.
pub proof fn lemma_exp_nanos_grows(initial: u64, m: u64, a: nat, b: nat)
    requires
        m >= 1000,
        a <= b,
    ensures
        exp_nanos(initial, m, a) <= exp_nanos(initial, m, b),
    decreases b - a,
{
    if a < b {
        lemma_exp_nanos_grows(initial, m, a, (b - 1) as nat);
        lemma_exp_nanos_nonneg(initial, m, (b - 1) as nat);
        let d = exp_nanos(initial, m, (b - 1) as nat);
        assert(d * m / 1000 >= d) by (nonlinear_arith)
            requires
                d >= 0,
                m >= 1000,
        ;
    }
}

/// With a multiplier of at least one, the exponential delay never shrinks.
pub proof fn lemma_exp_delay_grows(initial: u64, max: u64, m: u64, attempt: nat)
    requires
        m >= 1000,
    ensures
        exp_delay(initial, max, m, attempt) <= exp_delay(initial, max, m, attempt + 1),
{
    lemma_exp_nanos_grows(initial, m, attempt, attempt + 1);
    let x = exp_nanos(initial, m, attempt);
    let y = exp_nanos(initial, m, attempt + 1);
    assert(x / 1_000_000 <= y / 1_000_000) by (nonlinear_arith)
        requires
            x <= y,
    ;
}


impl RetryStrategy {
    /// No retries.
    pub fn none() -> (r: Self)
        ensures
            r == RetryStrategy::NoRetry,
    {
        RetryStrategy::NoRetry
    }

    /// Fixed delay.
    pub fn fixed(delay: u64, max_attempts: u32) -> (r: Self)
        ensures
            r == (RetryStrategy::Fixed { delay, max_attempts }),
    {
        RetryStrategy::Fixed { delay, max_attempts }
    }

    /// Exponential backoff from `initial_delay`, doubling, up to 60 s.
    pub fn exponential(initial_delay: u64, max_attempts: u32) -> (r: Self)
        ensures
            r == (RetryStrategy::Exponential { initial_delay, max_delay: 60_000, multiplier_milli: 2000, max_attempts }),
    {
        RetryStrategy::Exponential { initial_delay, max_delay: 60_000, multiplier_milli: 2000, max_attempts }
    }

    /// The default: exponential from 100 ms, doubling, up to 30 s, 5 attempts.
    pub open spec fn spec_default() -> RetryStrategy {
        RetryStrategy::Exponential { initial_delay: 100, max_delay: 30_000, multiplier_milli: 2000, max_attempts: 5 }
    }

    /// The default strategy (see [`RetryStrategy::spec_default`]).
    pub fn default() -> (r: Self)
        ensures
            r == Self::spec_default(),
    {
        RetryStrategy::Exponential { initial_delay: 100, max_delay: 30_000, multiplier_milli: 2000, max_attempts: 5 }
    }

    /// The delay before retry `attempt` (counted from 0), or `None` when no
    /// retry is left.
    pub fn delay_for_attempt(&self, attempt: u32) -> (r: Option<u64>)
        ensures
            match (r, delay_spec(*self, attempt)) {
                (Some(d), Some(e)) => d == e,
                (None, None) => true,
                _ => false,
            },
    {
        match *self {
            RetryStrategy::NoRetry => None,
            RetryStrategy::Fixed { delay, max_attempts } => {
                if attempt < max_attempts {
                    Some(delay)
                } else {
                    None
                }
            },
            RetryStrategy::Exponential { initial_delay, max_delay, multiplier_milli, max_attempts } => {
                if attempt < max_attempts {
                    Some(Self::exponential_delay(initial_delay, max_delay, multiplier_milli, attempt))
                } else {
                    None
                }
            },
            RetryStrategy::Linear { initial_delay, increment, max_delay, max_attempts } => {
                if attempt < max_attempts {
                    proof {
                        assert((increment as int) * (attempt as int) <= 0xffff_ffff_ffff_ffff * 0xffff_ffff)
                            by (nonlinear_arith)
                            requires
                                increment <= 0xffff_ffff_ffff_ffffu64,
                                attempt <= 0xffff_ffffu32,
                        ;
                    }
                    let prod: u128 = increment as u128 * attempt as u128;
                    let total: u128 = initial_delay as u128 + prod;
                    if total < max_delay as u128 {
                        Some(total as u64)
                    } else {
                        Some(max_delay)
                    }
                } else {
                    None
                }
            },
        }
    }

    /// The exponential delay before retry `attempt`.
    fn exponential_delay(initial: u64, max: u64, m: u64, attempt: u32) -> (r: u64)
        ensures
            r == exp_delay(initial, max, m, attempt as nat),
    {
        let cap: u128 = (max as u128 + 1) * 1_000_000;
        let v0: u128 = initial as u128 * 1_000_000;
        let mut v: u128 = v0;
        let mut k: u32 = 0;
        while k < attempt
            invariant
                k <= attempt,
                v == exp_nanos(initial, m, k as nat),
                cap == (max as int + 1) * 1_000_000,
                v0 == initial * 1_000_000,
                m < 1000 ==> v <= v0,
            decreases attempt - k,
        {
            if m >= 1000 && v >= cap {
                proof {
                    lemma_exp_nanos_grows(initial, m, k as nat, attempt as nat);
                    let z = exp_nanos(initial, m, attempt as nat);
                    assert(z / 1_000_000 >= max + 1) by (nonlinear_arith)
                        requires
                            z >= (max + 1) * 1_000_000,
                    ;
                }
                return max;
            }
            if m >= 1000 && v > u128::MAX / (m as u128) {
                proof {
                    assert(v * m / 1000 >= cap) by (nonlinear_arith)
                        requires
                            v > 0xffff_ffff_ffff_ffff_ffff_ffff_ffff_ffffu128 / (m as u128),
                            m >= 1000,
                            cap == (max as int + 1) * 1_000_000,
                            max <= 0xffff_ffff_ffff_ffffu64,
                    ;
                    lemma_exp_nanos_grows(initial, m, (k + 1) as nat, attempt as nat);
                    let z = exp_nanos(initial, m, attempt as nat);
                    assert(z / 1_000_000 >= max + 1) by (nonlinear_arith)
                        requires
                            z >= (max + 1) * 1_000_000,
                    ;
                }
                return max;
            }
            proof {
                if m < 1000 {
                    assert(v * (m as int) <= v0 * 1000) by (nonlinear_arith)
                        requires
                            v <= v0,
                            m < 1000,
                            v >= 0,
                    ;
                    assert(v0 * 1000 <= 0xffff_ffff_ffff_ffff_ffff_ffff_ffff_ffffu128) by (nonlinear_arith)
                        requires
                            v0 == initial * 1_000_000,
                            initial <= 0xffff_ffff_ffff_ffffu64,
                    ;
                    assert(v * (m as int) / 1000 <= v) by (nonlinear_arith)
                        requires
                            v >= 0,
                            m < 1000,
                    ;
                } else {
                    assert(v * (m as int) <= 0xffff_ffff_ffff_ffff_ffff_ffff_ffff_ffffu128) by (nonlinear_arith)
                        requires
                            v <= 0xffff_ffff_ffff_ffff_ffff_ffff_ffff_ffffu128 / (m as u128),
                            m >= 1000,
                    ;
                }
            }
            v = v * (m as u128) / 1000;
            k = k + 1;
        }
        let ms: u128 = v / 1_000_000;
        if ms < max as u128 {
            ms as u64
        } else {
            max
        }
    }

    /// Whether retry `attempt` may happen.
    pub fn should_retry(&self, attempt: u32) -> (r: bool)
        ensures
            r == (delay_spec(*self, attempt) is Some),
    {
        self.delay_for_attempt(attempt).is_some()
    }

    /// The maximum number of attempts (1 without retries).
    pub fn max_attempts(&self) -> (r: u32)
        ensures
            r == match *self {
                RetryStrategy::NoRetry => 1,
                RetryStrategy::Fixed { max_attempts, .. } => max_attempts,
                RetryStrategy::Exponential { max_attempts, .. } => max_attempts,
                RetryStrategy::Linear { max_attempts, .. } => max_attempts,
            },
    {
        match *self {
            RetryStrategy::NoRetry => 1,
            RetryStrategy::Fixed { max_attempts, .. } => max_attempts,
            RetryStrategy::Exponential { max_attempts, .. } => max_attempts,
            RetryStrategy::Linear { max_attempts, .. } => max_attempts,
        }
    }
}

/// Whether an error message (lowercased) contains one of the phrases that
/// mark an error as not worth retrying.
pub open spec fn is_retryable_spec(error: Seq<char>, non_retryable: Seq<String>) -> bool {
    !exists|i: int| 0 <= i < non_retryable.len() && contains_seq(lowercase_of(error), #[trigger] non_retryable[i]@)
}

/// Retry policy for SSH operations.
#[derive(Debug, Clone)]
pub struct RetryPolicy {
    /// Strategy for connection retries.
    pub connection: RetryStrategy,
    /// Strategy for command retries.
    pub command: RetryStrategy,
    /// Whether to retry on timeout.
    pub retry_on_timeout: bool,
    /// Whether to retry on disconnect.
    pub retry_on_disconnect: bool,
    /// Phrases that mark an error as not worth retrying.
    pub non_retryable_errors: Vec<String>,
}

impl RetryPolicy {
    /// The default policy: default connection retries, no command retries,
    /// retry on timeout and disconnect, and authentication failures and
    /// denied permissions not retried.
    pub fn default() -> (r: Self)
        ensures
            r.connection == RetryStrategy::spec_default(),
            r.command == RetryStrategy::NoRetry,
            r.retry_on_timeout,
            r.retry_on_disconnect,
            r.non_retryable_errors@.len() == 2,
            r.non_retryable_errors@[0]@ == "authentication failed"@,
            r.non_retryable_errors@[1]@ == "permission denied"@,
    {
        let mut v: Vec<String> = Vec::new();
        v.push("authentication failed".to_owned());
        v.push("permission denied".to_owned());
        RetryPolicy {
            connection: RetryStrategy::default(),
            command: RetryStrategy::none(),
            retry_on_timeout: true,
            retry_on_disconnect: true,
            non_retryable_errors: v,
        }
    }

    /// The default policy.
    pub fn new() -> (r: Self)
        ensures
            r.connection == RetryStrategy::spec_default(),
            r.command == RetryStrategy::NoRetry,
            r.retry_on_timeout,
            r.retry_on_disconnect,
            r.non_retryable_errors@.len() == 2,
            r.non_retryable_errors@[0]@ == "authentication failed"@,
            r.non_retryable_errors@[1]@ == "permission denied"@,
    {
        Self::default()
    }

    /// Set the connection retry strategy.
    pub fn with_connection_retries(self, strategy: RetryStrategy) -> (r: Self)
        ensures
            r == (RetryPolicy { connection: strategy, ..self }),
    {
        RetryPolicy { connection: strategy, ..self }
    }

    /// Set the command retry strategy.
    pub fn with_command_retries(self, strategy: RetryStrategy) -> (r: Self)
        ensures
            r == (RetryPolicy { command: strategy, ..self }),
    {
        RetryPolicy { command: strategy, ..self }
    }

    /// Whether an error is worth retrying: its lowercased message contains
    /// none of the non-retryable phrases.
    pub fn is_retryable(&self, error: &str) -> (r: bool)
        ensures
            r == is_retryable_spec(error@, self.non_retryable_errors@),
    {
        let lower = to_lowercase(error);
        let lc = chars_of(lower.as_str());
        let mut i: usize = 0;
        while i < self.non_retryable_errors.len()
            invariant
                i <= self.non_retryable_errors@.len(),
                lc@ == lowercase_of(error@),
                forall|j: int| 0 <= j < i ==> !contains_seq(lowercase_of(error@), #[trigger] self.non_retryable_errors@[j]@),
            decreases self.non_retryable_errors.len() - i,
        {
            let p = chars_of(self.non_retryable_errors[i].as_str());
            if contains_chars(lc.as_slice(), p.as_slice()) {
                return false;
            }
            i = i + 1;
        }
        true
    }
}

/// Retry state tracker.
#[derive(Debug)]
pub struct RetryState {
    attempt: u32,
    strategy: RetryStrategy,
    total_delay: u64,
}

impl RetryState {
    /// The current attempt (from 0).
    pub closed spec fn spec_attempt(&self) -> u32 {
        self.attempt
    }

    /// The strategy in use.
    pub closed spec fn spec_strategy(&self) -> RetryStrategy {
        self.strategy
    }

    /// The delay accumulated so far.
    pub closed spec fn spec_total_delay(&self) -> u64 {
        self.total_delay
    }

    /// A fresh state.
    pub fn new(strategy: RetryStrategy) -> (r: Self)
        ensures
            r.spec_attempt() == 0,
            r.spec_strategy() == strategy,
            r.spec_total_delay() == 0,
    {
        RetryState { attempt: 0, strategy, total_delay: 0 }
    }

    /// The current attempt.
    pub fn attempt(&self) -> (r: u32)
        ensures
            r == self.spec_attempt(),
    {
        self.attempt
    }

    /// Whether another retry may happen.
    pub fn should_retry(&self) -> (r: bool)
        ensures
            r == (delay_spec(self.spec_strategy(), self.spec_attempt()) is Some),
    {
        self.strategy.should_retry(self.attempt)
    }

    /// The delay before the next retry.
    pub fn next_delay(&self) -> (r: Option<u64>)
        ensures
            match (r, delay_spec(self.spec_strategy(), self.spec_attempt())) {
                (Some(d), Some(e)) => d == e,
                (None, None) => true,
                _ => false,
            },
    {
        self.strategy.delay_for_attempt(self.attempt)
    }

    /// Record an attempt: its delay (if any) is added to the total (which
    /// saturates), and the attempt count goes up.
    pub fn record_attempt(&mut self)
        requires
            old(self).spec_attempt() < u32::MAX,
        ensures
            final(self).spec_attempt() == old(self).spec_attempt() + 1,
            final(self).spec_strategy() == old(self).spec_strategy(),
            final(self).spec_total_delay() == match delay_spec(old(self).spec_strategy(), old(self).spec_attempt()) {
                Some(d) => min_of(old(self).spec_total_delay() + d, u64::MAX as int),
                None => old(self).spec_total_delay() as int,
            },
    {
        match self.next_delay() {
            Some(d) => {
                self.total_delay = self.total_delay.saturating_add(d);
            },
            None => {},
        }
        self.attempt = self.attempt + 1;
    }

    /// The delay accumulated so far.
    pub fn total_delay(&self) -> (r: u64)
        ensures
            r == self.spec_total_delay(),
    {
        self.total_delay
    }

    /// Start over.
    pub fn reset(&mut self)
        ensures
            final(self).spec_attempt() == 0,
            final(self).spec_total_delay() == 0,
            final(self).spec_strategy() == old(self).spec_strategy(),
    {
        self.attempt = 0;
        self.total_delay = 0;
    }
}

/// With a fixed or linear strategy, or an exponential one whose multiplier
/// is at least one, a later attempt never waits less than an earlier one.
pub proof fn law_delays_never_shrink(s: RetryStrategy, a: u32, b: u32)
    requires
        a <= b,
        delay_spec(s, b) is Some,
        s matches RetryStrategy::Exponential { multiplier_milli, .. } ==> multiplier_milli >= 1000,
    ensures
        delay_spec(s, a) is Some,
        delay_spec(s, a)->0 <= delay_spec(s, b)->0,
    decreases b - a,
{
    match s {
        RetryStrategy::Exponential { initial_delay, max_delay, multiplier_milli, .. } => {
            if a < b {
                law_delays_never_shrink(s, (a + 1) as u32, b);
                lemma_exp_delay_grows(initial_delay, max_delay, multiplier_milli, a as nat);
            }
        },
        RetryStrategy::Linear { initial_delay, increment, max_delay, .. } => {
            assert(increment * a <= increment * b) by (nonlinear_arith)
                requires
                    a <= b,
            ;
        },
        _ => {},
    }
}

/// A linear strategy waits its initial delay plus its increment once for
/// each earlier attempt, but never more than its maximum delay: before retry
/// `attempt` (while attempts are left) it waits
/// `initial_delay + increment * attempt`, or `max_delay` when that is less.
pub proof fn law_linear_delay(initial_delay: u64, increment: u64, max_delay: u64, max_attempts: u32, attempt: u32)
    requires
        attempt < max_attempts,
    ensures
        ({
            let s = (RetryStrategy::Linear { initial_delay, increment, max_delay, max_attempts });
            let uncapped = initial_delay + increment * attempt;
            &&& uncapped <= max_delay ==> delay_spec(s, attempt) == Some(uncapped)
            &&& uncapped > max_delay ==> delay_spec(s, attempt) == Some(max_delay as int)
        }),
{
}

/// With a positive increment, a linear strategy waits strictly longer before
/// each later attempt until the maximum delay is reached: from attempt `a`
/// to attempt `b` the delay grows by `increment` for each attempt between.
pub proof fn law_linear_delay_grows(
    initial_delay: u64,
    increment: u64,
    max_delay: u64,
    max_attempts: u32,
    a: u32,
    b: u32,
)
    requires
        a < b < max_attempts,
        increment > 0,
        initial_delay + increment * b <= max_delay,
    ensures
        ({
            let s = (RetryStrategy::Linear { initial_delay, increment, max_delay, max_attempts });
            &&& delay_spec(s, a) is Some
            &&& delay_spec(s, b) is Some
            &&& delay_spec(s, a)->0 < delay_spec(s, b)->0
            &&& delay_spec(s, b)->0 - delay_spec(s, a)->0 == increment * (b - a)
        }),
{
    assert(increment * a < increment * b) by (nonlinear_arith)
        requires
            a < b,
            increment > 0,
    ;
    assert(increment * b - increment * a == increment * (b - a)) by (nonlinear_arith);
}

/// Doubling multiplies the delay in nanoseconds by two exactly, once per
/// attempt.
proof fn lemma_exp_nanos_doubling(initial: u64, attempt: nat)
    ensures
        exp_nanos(initial, 2000, attempt) == initial * 1_000_000 * vstd::arithmetic::power::pow(2, attempt),
    decreases attempt,
{
    reveal(vstd::arithmetic::power::pow);
    if attempt > 0 {
        lemma_exp_nanos_doubling(initial, (attempt - 1) as nat);
        let x = exp_nanos(initial, 2000, (attempt - 1) as nat);
        let p = vstd::arithmetic::power::pow(2, (attempt - 1) as nat);
        assert(x * 2000 / 1000 == 2 * x);
        assert(initial * 1_000_000 * (2 * p) == 2 * (initial * 1_000_000 * p)) by (nonlinear_arith);
    }
}

/// An exponential strategy that doubles (as the default and
/// [`RetryStrategy::exponential`] do) waits its initial delay times two to
/// the power `attempt` before retry `attempt`, but never more than its
/// maximum delay; after its last attempt it gives up.
pub proof fn law_exponential_doubling(initial_delay: u64, max_delay: u64, max_attempts: u32, attempt: u32)
    ensures
        ({
            let s = (RetryStrategy::Exponential { initial_delay, max_delay, multiplier_milli: 2000, max_attempts });
            let uncapped = initial_delay * vstd::arithmetic::power::pow(2, attempt as nat);
            &&& attempt < max_attempts && uncapped <= max_delay ==> delay_spec(s, attempt) == Some(uncapped)
            &&& attempt < max_attempts && uncapped > max_delay ==> delay_spec(s, attempt) == Some(max_delay as int)
            &&& attempt >= max_attempts ==> delay_spec(s, attempt) is None
        }),
{
    lemma_exp_nanos_doubling(initial_delay, attempt as nat);
    let p = vstd::arithmetic::power::pow(2, attempt as nat);
    assert(initial_delay * 1_000_000 * p / 1_000_000 == initial_delay * p) by (nonlinear_arith);
}

/// A fixed strategy waits the same delay before every retry while attempts
/// are left, and then gives up; no retry at all gives up at once.
pub proof fn law_fixed_and_no_retry(delay: u64, max_attempts: u32, attempt: u32)
    ensures
        attempt < max_attempts ==> delay_spec((RetryStrategy::Fixed { delay, max_attempts }), attempt) == Some(delay as int),
        attempt >= max_attempts ==> delay_spec((RetryStrategy::Fixed { delay, max_attempts }), attempt) is None,
        delay_spec(RetryStrategy::NoRetry, attempt) is None,
{
}

} // verus!
