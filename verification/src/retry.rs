//! Retry engine: exponential backoff with a bounded jitter, and the
//! per-error-class retry policy, including the substring vocabulary that
//! classifies venue-reported messages.
use vstd::prelude::*;

use crate::errors::TradingError;
use crate::external::random_in_range;
use crate::text::{contains_seq_ci, contains_substring_ci};

verus! {

/// The smaller of two mathematical integers.
pub open spec fn min_of(a: int, b: int) -> int {
    if a <= b {
        a
    } else {
        b
    }
}

/// Retry policy for an error class.
#[derive(Debug, Clone, Copy)]
pub enum RetryPolicy {
    /// Retry immediately without delay.
    Immediate,
    /// Retry with exponential backoff.
    ExponentialBackoff,
    /// Do not retry.
    NoRetry,
}

/// The transient vocabulary: a venue message holding any of these, in any
/// ASCII casing, is treated as temporary and retried with backoff.
pub open spec fn is_transient_message(m: Seq<char>) -> bool {
    ||| contains_seq_ci(m, "timeout"@)
    ||| contains_seq_ci(m, "rate limit"@)
    ||| contains_seq_ci(m, "temporary"@)
    ||| contains_seq_ci(m, "service unavailable"@)
}

/// The terminal vocabulary: a venue message holding any of these, in any
/// ASCII casing, is never retried.
pub open spec fn is_terminal_message(m: Seq<char>) -> bool {
    ||| contains_seq_ci(m, "insufficient funds"@)
    ||| contains_seq_ci(m, "invalid order"@)
    ||| contains_seq_ci(m, "market closed"@)
}

/// The retry policy owed to each error: transport and data faults back off,
/// risk refusals and malformed payloads never retry, and venue-reported
/// failures go by their message, backing off unless the terminal vocabulary
/// matches (an unrecognised message is treated as possibly transient).
pub open spec fn spec_retry_policy(e: &TradingError) -> RetryPolicy {
    match e {
        TradingError::NetworkError { .. } => RetryPolicy::ExponentialBackoff,
        TradingError::ExecutionError { message } => if is_transient_message(message@) {
            RetryPolicy::ExponentialBackoff
        } else if is_terminal_message(message@) {
            RetryPolicy::NoRetry
        } else {
            RetryPolicy::ExponentialBackoff
        },
        TradingError::RiskLimitError { .. } => RetryPolicy::NoRetry,
        TradingError::DataError { .. } => RetryPolicy::ExponentialBackoff,
        TradingError::SerializationError { .. } => RetryPolicy::NoRetry,
    }
}

/// Classify an error into its retry policy.
pub fn determine_retry_policy(error: &TradingError) -> (r: RetryPolicy)
    ensures
        r == spec_retry_policy(error),
{
    match error {
        TradingError::NetworkError { .. } => RetryPolicy::ExponentialBackoff,
        TradingError::ExecutionError { message } => {
            let m = message.as_str();
            if contains_substring_ci(m, "timeout") || contains_substring_ci(m, "rate limit")
                || contains_substring_ci(m, "temporary") || contains_substring_ci(
                m,
                "service unavailable",
            ) {
                RetryPolicy::ExponentialBackoff
            } else if contains_substring_ci(m, "insufficient funds") || contains_substring_ci(
                m,
                "invalid order",
            ) || contains_substring_ci(m, "market closed") {
                RetryPolicy::NoRetry
            } else {
                RetryPolicy::ExponentialBackoff
            }
        },
        TradingError::RiskLimitError { .. } => RetryPolicy::NoRetry,
        TradingError::DataError { .. } => RetryPolicy::ExponentialBackoff,
        TradingError::SerializationError { .. } => RetryPolicy::NoRetry,
    }
}

/// The nominal (un-jittered) backoff before attempt number `attempt`:
/// the base delay doubled once per earlier attempt, capped at the maximum.
pub open spec fn nominal_delay(base: u64, cap: u64, attempt: u32) -> int
    recommends
        1 <= attempt,
{
    min_of(base as int * vstd::arithmetic::power2::pow2((attempt - 1) as nat) as int, cap as int)
}

/// Retry configuration: how many attempts are made and how the backoff
/// delay between them grows.
pub struct RetryLogic {
    max_retries: u32,
    base_delay_ms: u64,
    max_delay_ms: u64,
}

impl RetryLogic {
    pub fn new(max_retries: u32, base_delay_ms: u64, max_delay_ms: u64) -> (r: Self)
        ensures
            r.spec_max_retries() == max_retries,
            r.spec_base_delay_ms() == base_delay_ms,
            r.spec_max_delay_ms() == max_delay_ms,
    {
        Self { max_retries, base_delay_ms, max_delay_ms }
    }

    pub closed spec fn spec_max_retries(&self) -> u32 {
        self.max_retries
    }

    pub closed spec fn spec_base_delay_ms(&self) -> u64 {
        self.base_delay_ms
    }

    pub closed spec fn spec_max_delay_ms(&self) -> u64 {
        self.max_delay_ms
    }

    /// The nominal backoff before attempt number `attempt` under this
    /// configuration.
    pub open spec fn spec_nominal_delay(&self, attempt: u32) -> int {
        nominal_delay(self.spec_base_delay_ms(), self.spec_max_delay_ms(), attempt)
    }

    /// The delay before attempt number `attempt`: zero before the first
    /// attempt, and otherwise the nominal exponential backoff with a
    /// uniformly drawn jitter of at most a quarter of it either way.
    pub fn calculate_delay(&self, attempt: u32) -> (r: u64)
        ensures
            attempt == 0 ==> r == 0,
            attempt >= 1 ==> {
                let nominal = self.spec_nominal_delay(attempt);
                &&& nominal - nominal / 4 <= r as int
                &&& r as int <= nominal + nominal / 4
            },
    {
        if attempt == 0 {
            return 0;
        }
        let base = self.base_delay_ms;
        let cap = self.max_delay_ms;
        let mut d: u64 = if base > cap {
            cap
        } else {
            base
        };
        let mut i: u32 = 1;
        proof {
            vstd::arithmetic::power2::lemma2_to64();
            assert(vstd::arithmetic::power2::pow2(0) == 1);
            assert(base as int * vstd::arithmetic::power2::pow2(0) as int == base as int)
                by (nonlinear_arith)
                requires
                    vstd::arithmetic::power2::pow2(0) == 1,
            ;
            assert(d as int == min_of(
                base as int * vstd::arithmetic::power2::pow2(0) as int,
                cap as int,
            ));
        }
        while i < attempt && d < cap
            invariant
                1 <= i <= attempt,
                base == self.spec_base_delay_ms(),
                cap == self.spec_max_delay_ms(),
                d as int == min_of(
                    base as int * vstd::arithmetic::power2::pow2((i - 1) as nat) as int,
                    cap as int,
                ),
            decreases attempt - i,
        {
            let ghost p = vstd::arithmetic::power2::pow2((i - 1) as nat) as int;
            let next = if d > cap / 2 {
                cap
            } else {
                2 * d
            };
            proof {
                vstd::arithmetic::power2::lemma_pow2_unfold(i as nat);
                assert(vstd::arithmetic::power2::pow2(i as nat) == 2 * p);
                assert(next as int == min_of(2 * d as int, cap as int));
                assert(base as int * (2 * p) == 2 * (base as int * p)) by (nonlinear_arith);
                assert(next as int == min_of(base as int * (2 * p), cap as int));
            }
            d = next;
            i = i + 1;
        }
        proof {
            if i < attempt {
                let p1 = vstd::arithmetic::power2::pow2((i - 1) as nat);
                let p2 = vstd::arithmetic::power2::pow2((attempt - 1) as nat);
                vstd::arithmetic::power2::lemma_pow2_strictly_increases(
                    (i - 1) as nat,
                    (attempt - 1) as nat,
                );
                assert(base as int * p1 as int <= base as int * p2 as int) by (nonlinear_arith)
                    requires
                        p1 <= p2,
                        base >= 0,
                ;
            }
            assert(d as int == self.spec_nominal_delay(attempt));
        }
        let jitter = d / 4;
        let lo = d - jitter;
        let hi = if d <= u64::MAX - jitter {
            d + jitter
        } else {
            u64::MAX
        };
        random_in_range(lo, hi)
    }

    /// Whether another attempt is allowed after `attempt` attempts.
    pub fn should_retry(&self, attempt: u32) -> (r: bool)
        ensures
            r == (attempt < self.spec_max_retries()),
    {
        attempt < self.max_retries
    }

    /// The configured maximum number of retries.
    pub fn max_retries(&self) -> (r: u32)
        ensures
            r == self.spec_max_retries(),
    {
        self.max_retries
    }

    /// The least possible sum of the backoff delays over `n` retries.
    pub open spec fn spec_total_delay_lo(&self, n: u32) -> int
        decreases n,
    {
        if n == 0 {
            0
        } else {
            let nominal = self.spec_nominal_delay(n);
            self.spec_total_delay_lo((n - 1) as u32) + nominal - nominal / 4
        }
    }

    /// The greatest possible sum of the backoff delays over `n` retries.
    pub open spec fn spec_total_delay_hi(&self, n: u32) -> int
        decreases n,
    {
        if n == 0 {
            0
        } else {
            let nominal = self.spec_nominal_delay(n);
            self.spec_total_delay_hi((n - 1) as u32) + nominal + nominal / 4
        }
    }

    /// The total time that the configured retries can take, summing one
    /// drawn delay per retry; the sum saturates rather than overflow.
    pub fn calculate_max_total_time(&self) -> (r: u64)
        ensures
            r as int <= self.spec_total_delay_hi(self.spec_max_retries()),
            r == u64::MAX || r as int >= self.spec_total_delay_lo(self.spec_max_retries()),
    {
        let mut total: u64 = 0;
        let mut done: u32 = 0;
        while done < self.max_retries
            invariant
                done <= self.spec_max_retries(),
                total as int <= self.spec_total_delay_hi(done),
                total == u64::MAX || total as int >= self.spec_total_delay_lo(done),
            decreases self.spec_max_retries() - done,
        {
            let d = self.calculate_delay(done + 1);
            total = if total <= u64::MAX - d {
                total + d
            } else {
                u64::MAX
            };
            done = done + 1;
        }
        total
    }
}

} // verus!
