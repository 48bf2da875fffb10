//! Per-venue circuit breaker: a three-state machine (closed, open, half-open)
//! that counts consecutive failures, blocks traffic once a threshold is
//! reached, and probes recovery after a timeout.
use vstd::prelude::*;

use crate::external::current_millis;

verus! {

/// Circuit breaker states.
#[derive(Debug, Clone, Copy, PartialEq, Eq, Structural)]
pub enum CircuitBreakerState {
    /// Normal operation.
    Closed,
    /// Failing; requests are blocked.
    Open,
    /// Testing whether the venue recovered.
    HalfOpen,
}

/// Circuit breaker for one venue connection.
pub struct CircuitBreaker {
    failure_threshold: u32,
    recovery_timeout_ms: u64,
    failure_count: u32,
    last_failure_time: u64,
    state: CircuitBreakerState,
}

impl CircuitBreaker {
    pub closed spec fn spec_state(&self) -> CircuitBreakerState {
        self.state
    }

    pub closed spec fn spec_failure_count(&self) -> u32 {
        self.failure_count
    }

    pub closed spec fn spec_failure_threshold(&self) -> u32 {
        self.failure_threshold
    }

    pub closed spec fn spec_recovery_timeout_ms(&self) -> u64 {
        self.recovery_timeout_ms
    }

    pub closed spec fn spec_last_failure_time(&self) -> u64 {
        self.last_failure_time
    }

    /// The configuration (threshold and recovery timeout) of two breaker
    /// values is the same.
    pub open spec fn same_config(self, other: Self) -> bool {
        &&& self.spec_failure_threshold() == other.spec_failure_threshold()
        &&& self.spec_recovery_timeout_ms() == other.spec_recovery_timeout_ms()
    }

    /// Whether an admission check at `now_ms` is allowed: closed and
    /// half-open always admit; open admits once the recovery timeout has
    /// elapsed since the last failure.
    pub open spec fn spec_admits(self, now_ms: u64) -> bool {
        match self.spec_state() {
            CircuitBreakerState::Closed => true,
            CircuitBreakerState::HalfOpen => true,
            CircuitBreakerState::Open => now_ms
                >= self.spec_last_failure_time() + self.spec_recovery_timeout_ms(),
        }
    }

    /// The state after an admission check at `now_ms`: an open breaker
    /// whose timeout has elapsed moves to half-open; any other state is
    /// kept.
    pub open spec fn spec_state_after_admission(self, now_ms: u64) -> CircuitBreakerState {
        if self.spec_state() is Open && self.spec_admits(now_ms) {
            CircuitBreakerState::HalfOpen
        } else {
            self.spec_state()
        }
    }

    /// The state after a recorded failure: the circuit opens from closed
    /// once the count reaches the threshold, or from half-open at once.
    pub open spec fn spec_state_after_failure(self) -> CircuitBreakerState {
        match self.spec_state() {
            CircuitBreakerState::Closed => if self.spec_next_count()
                >= self.spec_failure_threshold() {
                CircuitBreakerState::Open
            } else {
                CircuitBreakerState::Closed
            },
            CircuitBreakerState::HalfOpen => CircuitBreakerState::Open,
            CircuitBreakerState::Open => CircuitBreakerState::Open,
        }
    }

    /// The breaker after an admission check at `now_ms`: an open breaker
    /// whose timeout has elapsed moves to half-open; nothing else changes.
    pub closed spec fn spec_after_admission(self, now_ms: u64) -> Self {
        if self.spec_state() is Open && self.spec_admits(now_ms) {
            CircuitBreaker { state: CircuitBreakerState::HalfOpen, ..self }
        } else {
            self
        }
    }

    /// The breaker after a recorded success: the circuit closes and the
    /// failure count resets, whatever the previous state.
    pub closed spec fn spec_after_success(self) -> Self {
        CircuitBreaker { state: CircuitBreakerState::Closed, failure_count: 0, ..self }
    }

    /// The failure count after one more failure (saturating).
    pub open spec fn spec_next_count(self) -> u32 {
        if self.spec_failure_count() < u32::MAX {
            (self.spec_failure_count() + 1) as u32
        } else {
            u32::MAX
        }
    }

    /// The breaker after a recorded failure at `now_ms`: the count rises,
    /// the failure time is noted, and the circuit opens from closed once
    /// the count reaches the threshold, or from half-open at once.
    pub closed spec fn spec_after_failure(self, now_ms: u64) -> Self {
        let next_state = match self.spec_state() {
            CircuitBreakerState::Closed => if self.spec_next_count()
                >= self.spec_failure_threshold() {
                CircuitBreakerState::Open
            } else {
                CircuitBreakerState::Closed
            },
            CircuitBreakerState::HalfOpen => CircuitBreakerState::Open,
            CircuitBreakerState::Open => CircuitBreakerState::Open,
        };
        CircuitBreaker {
            state: next_state,
            failure_count: self.spec_next_count(),
            last_failure_time: now_ms,
            ..self
        }
    }

    pub fn new(failure_threshold: u32, recovery_timeout_ms: u64) -> (r: Self)
        ensures
            r.spec_failure_threshold() == failure_threshold,
            r.spec_recovery_timeout_ms() == recovery_timeout_ms,
            r.spec_failure_count() == 0,
            r.spec_last_failure_time() == 0,
            r.spec_state() is Closed,
    {
        Self {
            failure_threshold,
            recovery_timeout_ms,
            failure_count: 0,
            last_failure_time: 0,
            state: CircuitBreakerState::Closed,
        }
    }

    /// Admission check against an explicit clock reading: returns true when
    /// the breaker blocks the request, and moves an open breaker whose
    /// recovery timeout has elapsed to half-open.
    pub fn is_open_at(&mut self, now_ms: u64) -> (r: bool)
        ensures
            r == !old(self).spec_admits(now_ms),
            *final(self) == old(self).spec_after_admission(now_ms),
            final(self).spec_state() == old(self).spec_state_after_admission(now_ms),
            final(self).spec_failure_count() == old(self).spec_failure_count(),
            final(self).spec_last_failure_time() == old(self).spec_last_failure_time(),
            old(self).same_config(*final(self)),
    {
        match self.state {
            CircuitBreakerState::Open => {
                if now_ms >= self.last_failure_time && now_ms - self.last_failure_time
                    >= self.recovery_timeout_ms {
                    self.state = CircuitBreakerState::HalfOpen;
                    false
                } else {
                    true
                }
            },
            CircuitBreakerState::HalfOpen => false,
            CircuitBreakerState::Closed => false,
        }
    }

    /// Admission check against the wall clock. The clock's reading is not
    /// under the caller's control, so the contract states what holds of
    /// every outcome; `is_open_at` pins the result for a given reading.
    pub fn is_open(&mut self) -> (r: bool)
        ensures
            old(self).same_config(*final(self)),
            final(self).spec_failure_count() == old(self).spec_failure_count(),
            final(self).spec_last_failure_time() == old(self).spec_last_failure_time(),
            old(self).spec_state() is Closed ==> !r && final(self).spec_state() is Closed,
            old(self).spec_state() is HalfOpen ==> !r && final(self).spec_state() is HalfOpen,
            old(self).spec_state() is Open ==> (if r {
                final(self).spec_state() is Open
            } else {
                final(self).spec_state() is HalfOpen
            }),
            exists|now: u64|
                {
                    &&& r == !old(self).spec_admits(now)
                    &&& *final(self) == old(self).spec_after_admission(now)
                },
    {
        let now = current_millis();
        let r = self.is_open_at(now);
        proof {
            let ghost witness = now;
            assert(r == !old(self).spec_admits(witness) && *final(self) == old(
                self,
            ).spec_after_admission(witness));
        }
        r
    }

    /// Record a successful operation: the circuit closes and the failure
    /// count resets.
    pub fn record_success(&mut self)
        ensures
            *final(self) == old(self).spec_after_success(),
            final(self).spec_state() is Closed,
            final(self).spec_failure_count() == 0,
            old(self).same_config(*final(self)),
            final(self).spec_last_failure_time() == old(self).spec_last_failure_time(),
    {
        self.state = CircuitBreakerState::Closed;
        self.failure_count = 0;
    }

    /// Record a failed operation against an explicit clock reading.
    pub fn record_failure_at(&mut self, now_ms: u64)
        ensures
            *final(self) == old(self).spec_after_failure(now_ms),
            final(self).spec_state() == old(self).spec_state_after_failure(),
            final(self).spec_failure_count() == old(self).spec_next_count(),
            final(self).spec_last_failure_time() == now_ms,
            old(self).same_config(*final(self)),
    {
        if self.failure_count < u32::MAX {
            self.failure_count = self.failure_count + 1;
        }
        self.last_failure_time = now_ms;
        match self.state {
            CircuitBreakerState::Closed => {
                if self.failure_count >= self.failure_threshold {
                    self.state = CircuitBreakerState::Open;
                }
            },
            CircuitBreakerState::HalfOpen => {
                self.state = CircuitBreakerState::Open;
            },
            CircuitBreakerState::Open => {},
        }
    }

    /// Record a failed operation against the wall clock: the failure time
    /// noted is whatever the clock read.
    pub fn record_failure(&mut self)
        ensures
            exists|now: u64| *final(self) == old(self).spec_after_failure(now),
            old(self).same_config(*final(self)),
            final(self).spec_failure_count() == old(self).spec_next_count(),
            final(self).spec_state() == old(self).spec_state_after_failure(),
    {
        let now = current_millis();
        self.record_failure_at(now);
        proof {
            let ghost witness = now;
            assert(*final(self) == old(self).spec_after_failure(witness));
        }
    }

    /// Current state.
    pub fn get_state(&self) -> (r: CircuitBreakerState)
        ensures
            r == self.spec_state(),
    {
        self.state
    }

    /// Current failure count.
    pub fn get_failure_count(&self) -> (r: u32)
        ensures
            r == self.spec_failure_count(),
    {
        self.failure_count
    }

    /// Force the breaker open, noting the given clock reading as the last
    /// failure time.
    pub fn force_open_at(&mut self, now_ms: u64)
        ensures
            final(self).spec_state() is Open,
            final(self).spec_last_failure_time() == now_ms,
            final(self).spec_failure_count() == old(self).spec_failure_count(),
            old(self).same_config(*final(self)),
    {
        self.state = CircuitBreakerState::Open;
        self.last_failure_time = now_ms;
    }

    /// Force the breaker open against the wall clock (for tests and
    /// operational overrides).
    pub fn force_open(&mut self)
        ensures
            final(self).spec_state() is Open,
            final(self).spec_failure_count() == old(self).spec_failure_count(),
            old(self).same_config(*final(self)),
    {
        let now = current_millis();
        self.force_open_at(now);
    }

    /// Force the breaker closed and reset the failure count (for tests and
    /// operational overrides).
    pub fn force_close(&mut self)
        ensures
            final(self).spec_state() is Closed,
            final(self).spec_failure_count() == 0,
            final(self).spec_last_failure_time() == old(self).spec_last_failure_time(),
            old(self).same_config(*final(self)),
    {
        self.state = CircuitBreakerState::Closed;
        self.failure_count = 0;
    }
}

/// Breaker monotonicity: a closed breaker whose failure count is about to
/// reach the threshold opens on the next failure, and the open breaker then
/// denies every admission check made before the recovery timeout has elapsed
/// since that failure, leaving the breaker open.
pub proof fn lemma_breaker_monotonic(b: CircuitBreaker, fail_ms: u64, check_ms: u64)
    requires
        b.spec_state() is Closed,
        b.spec_next_count() >= b.spec_failure_threshold(),
        check_ms < fail_ms + b.spec_recovery_timeout_ms(),
    ensures
        b.spec_state_after_failure() is Open,
        b.spec_after_failure(fail_ms).spec_state() is Open,
        !b.spec_after_failure(fail_ms).spec_admits(check_ms),
        b.spec_after_failure(fail_ms).spec_after_admission(check_ms) == b.spec_after_failure(
            fail_ms,
        ),
{
}

/// Further failures never close an open breaker: however many failures
/// follow, the breaker stays open and keeps denying early admission checks.
pub proof fn lemma_open_stays_open_on_failure(b: CircuitBreaker, fail_ms: u64, check_ms: u64)
    requires
        b.spec_state() is Open,
        check_ms < fail_ms + b.spec_recovery_timeout_ms(),
    ensures
        b.spec_after_failure(fail_ms).spec_state() is Open,
        !b.spec_after_failure(fail_ms).spec_admits(check_ms),
{
}


/// The breaker after a whole run of recorded failures, in order.
pub open spec fn spec_after_failures(b: CircuitBreaker, times: Seq<u64>) -> CircuitBreaker
    decreases times.len(),
{
    if times.len() == 0 {
        b
    } else {
        spec_after_failures(b.spec_after_failure(times[0]), times.drop_first())
    }
}

/// Breaker monotonicity over a run: an open breaker stays open through any
/// further consecutive failures, and after the run it denies every
/// admission check made before the recovery timeout has elapsed since the
/// last recorded failure (or since its own last failure time, if the run
/// is empty).
pub proof fn lemma_breaker_stays_open(b: CircuitBreaker, times: Seq<u64>, check_ms: u64)
    requires
        b.spec_state() is Open,
        check_ms < (if times.len() == 0 {
            b.spec_last_failure_time()
        } else {
            times.last()
        }) + b.spec_recovery_timeout_ms(),
    ensures
        spec_after_failures(b, times).spec_state() is Open,
        !spec_after_failures(b, times).spec_admits(check_ms),
    decreases times.len(),
{
    if times.len() == 0 {
    } else {
        let b2 = b.spec_after_failure(times[0]);
        assert(b2.spec_state() is Open);
        assert(b2.spec_last_failure_time() == times[0]);
        assert(b2.same_config(b));
        if times.len() == 1 {
            assert(times.drop_first().len() == 0);
            assert(spec_after_failures(b2, times.drop_first()) == b2);
            assert(spec_after_failures(b, times) == b2);
        } else {
            assert(times.drop_first().last() == times.last());
            lemma_breaker_stays_open(b2, times.drop_first(), check_ms);
        }
    }
}

} // verus!
