//! Requests-per-minute token bucket.
//!
//! Token amounts are kept in integer units of 1/60000 token, so that a
//! refill of `rate_per_minute / 60` tokens per second becomes exactly
//! `rate_per_minute` units per millisecond. A full token is
//! `TOKEN_UNIT` units; the capacity is `rate_per_minute` tokens.

use vstd::prelude::*;

verus! {

/// Units per whole token: one token refills in `60000 / rate` milliseconds.
pub const TOKEN_UNIT: u64 = 60000;

/// Outcome of a bucket probe: a token was taken, or the caller should wait.
#[derive(Debug, Clone, Copy, PartialEq, Eq)]
pub enum BucketDecision {
    /// A token was consumed; the request may proceed.
    Granted,
    /// No token yet; wait this many milliseconds before probing again.
    Wait { wait_ms: u64 },
}

/// A per-configuration rate limiter. `rate_per_minute == 0` disables it.
#[derive(Debug, Clone, PartialEq, Eq)]
pub struct TokenBucket {
    pub rate_per_minute: u32,
    /// Current content in 1/60000-token units.
    pub token_units: u64,
    /// Wall-clock instant (ms) of the last refill.
    pub last_update_ms: u64,
}

impl TokenBucket {
    /// Bucket capacity in units: `rate_per_minute` whole tokens.
    pub open spec fn spec_capacity_units(self) -> int {
        self.rate_per_minute * TOKEN_UNIT
    }

    /// The bucket never holds more than its capacity.
    pub open spec fn wf(self) -> bool {
        self.rate_per_minute > 0 ==> self.token_units <= self.spec_capacity_units()
    }

    /// Content after refilling for the wall-clock delta up to `now_ms`.
    pub open spec fn spec_refill(self, now_ms: u64) -> int {
        let gained = (now_ms - self.last_update_ms) * self.rate_per_minute;
        if self.token_units + gained > self.spec_capacity_units() {
            self.spec_capacity_units()
        } else {
            self.token_units + gained
        }
    }

    /// The probe's decision: granted exactly when a whole token is available
    /// after the refill (or the bucket is disabled).
    pub open spec fn spec_decision(self, now_ms: u64) -> BucketDecision {
        if self.rate_per_minute == 0 {
            BucketDecision::Granted
        } else if self.spec_refill(now_ms) >= TOKEN_UNIT {
            BucketDecision::Granted
        } else {
            BucketDecision::Wait {
                wait_ms: (((TOKEN_UNIT - self.spec_refill(now_ms)) + self.rate_per_minute - 1)
                    / (self.rate_per_minute as int)) as u64,
            }
        }
    }

    /// The bucket state after the probe.
    pub open spec fn spec_step(self, now_ms: u64) -> TokenBucket {
        if self.rate_per_minute == 0 {
            self
        } else {
            let refilled = self.spec_refill(now_ms);
            let left = if self.spec_decision(now_ms) is Granted {
                refilled - TOKEN_UNIT
            } else {
                refilled
            };
            TokenBucket {
                rate_per_minute: self.rate_per_minute,
                token_units: left as u64,
                last_update_ms: now_ms,
            }
        }
    }

    /// A fresh bucket starts full.
    pub fn new(rate_per_minute: u32) -> (b: TokenBucket)
        ensures
            b.wf(),
            b.rate_per_minute == rate_per_minute,
            b.last_update_ms == 0,
            b.token_units == rate_per_minute * TOKEN_UNIT,
    {
        TokenBucket {
            rate_per_minute,
            token_units: (rate_per_minute as u64) * TOKEN_UNIT,
            last_update_ms: 0,
        }
    }

    /// Probe the bucket at wall-clock time `now_ms`.
    ///
    /// Returns `Granted` and consumes one token when available, else the
    /// exact time to wait until a whole token will have refilled. A bucket
    /// with `rate_per_minute == 0` always grants and never changes state.
    pub fn try_acquire(&mut self, now_ms: u64) -> (d: BucketDecision)
        requires
            old(self).wf(),
            now_ms >= old(self).last_update_ms,
        ensures
            final(self).wf(),
            d == old(self).spec_decision(now_ms),
            *final(self) == old(self).spec_step(now_ms),
    {
        if self.rate_per_minute == 0 {
            return BucketDecision::Granted;
        }
        let rate = self.rate_per_minute as u64;
        let cap: u64 = rate * TOKEN_UNIT;
        let elapsed: u64 = now_ms - self.last_update_ms;
        proof {
            vstd::arithmetic::mul::lemma_mul_upper_bound(
                elapsed as int,
                u64::MAX as int,
                rate as int,
                u32::MAX as int,
            );
        }
        let total: u128 = (self.token_units as u128) + (elapsed as u128) * (rate as u128);
        let refilled: u64 = if total > (cap as u128) {
            cap
        } else {
            total as u64
        };
        assert(refilled == self.spec_refill(now_ms));
        self.last_update_ms = now_ms;
        if refilled >= TOKEN_UNIT {
            self.token_units = refilled - TOKEN_UNIT;
            BucketDecision::Granted
        } else {
            self.token_units = refilled;
            let wait: u64 = ((TOKEN_UNIT - refilled) + (rate - 1)) / rate;
            BucketDecision::Wait { wait_ms: wait }
        }
    }
}

/// The unlimited-bucket law: with `rate_per_minute == 0` every probe is
/// granted immediately and the bucket never changes.
pub proof fn lemma_zero_rate_always_grants(b: TokenBucket, now_ms: u64)
    requires
        b.rate_per_minute == 0,
    ensures
        b.spec_decision(now_ms) is Granted,
        b.spec_step(now_ms) == b,
{
}

/// Simulated run: probe the bucket at each instant of `times` in turn,
/// counting grants.
pub open spec fn spec_bucket_run(b: TokenBucket, times: Seq<u64>) -> (TokenBucket, nat)
    decreases times.len(),
{
    if times.len() == 0 {
        (b, 0)
    } else {
        let first_state = b.spec_step(times[0]);
        let granted: nat = if b.spec_decision(times[0]) is Granted {
            1
        } else {
            0
        };
        let (rest_state, rest_grants) = spec_bucket_run(first_state, times.drop_first());
        (rest_state, granted + rest_grants)
    }
}

/// All probe times are nondecreasing and start no earlier than `t0`.
pub open spec fn spec_times_monotone(times: Seq<u64>, t0: u64) -> bool {
    &&& forall|i: int| 0 <= i < times.len() ==> #[trigger] times[i] >= t0
    &&& forall|i: int, j: int| 0 <= i <= j < times.len() ==> #[trigger] times[i] <= #[trigger] times[j]
}

/// Rate law of the token bucket: over any run of probes inside an interval
/// of `dt` milliseconds, a bucket with a positive rate grants at most
/// `rate_per_minute * dt / 60000 + rate_per_minute` tokens — the refill for
/// the interval plus the capacity. Stated in token units: the grants,
/// scaled by `TOKEN_UNIT`, never exceed the initial content plus the refill.
pub proof fn lemma_bucket_rate_bound(b: TokenBucket, times: Seq<u64>)
    requires
        b.wf(),
        b.rate_per_minute > 0,
        spec_times_monotone(times, b.last_update_ms),
        times.len() > 0,
    ensures
        ({
            let (end, grants) = spec_bucket_run(b, times);
            grants * TOKEN_UNIT <= b.spec_capacity_units() + (times.last() - b.last_update_ms)
                * b.rate_per_minute
        }),
{
    lemma_bucket_run_invariant(b, times);
}

/// Inductive core: grants so far plus the remaining content never exceed
/// the initial content plus the total refill.
proof fn lemma_bucket_run_invariant(b: TokenBucket, times: Seq<u64>)
    requires
        b.wf(),
        b.rate_per_minute > 0,
        spec_times_monotone(times, b.last_update_ms),
        times.len() > 0,
    ensures
        ({
            let (end, grants) = spec_bucket_run(b, times);
            &&& grants * TOKEN_UNIT + end.token_units <= b.token_units + (times.last()
                - b.last_update_ms) * b.rate_per_minute
            &&& end.wf()
            &&& end.rate_per_minute == b.rate_per_minute
            &&& end.last_update_ms == times.last()
        }),
    decreases times.len(),
{
    let t0 = times[0];
    let rate = b.rate_per_minute as int;
    let s1 = b.spec_step(t0);
    let g0: int = if b.spec_decision(t0) is Granted {
        1
    } else {
        0
    };
    assert(t0 >= b.last_update_ms);
    let refilled = b.spec_refill(t0);
    assert(refilled <= b.token_units + (t0 - b.last_update_ms) * rate);
    assert(0 <= refilled <= b.spec_capacity_units());
    assert(b.spec_capacity_units() <= u64::MAX);
    assert(s1.wf() && s1.rate_per_minute == b.rate_per_minute && s1.last_update_ms == t0);
    assert(s1.token_units + g0 * TOKEN_UNIT <= b.token_units + (t0 - b.last_update_ms) * rate);
    if times.len() == 1 {
        assert(times.last() == t0);
        assert(spec_bucket_run(s1, times.drop_first()) == (s1, 0nat));
    } else {
        let rest = times.drop_first();
        assert forall|i: int| 0 <= i < rest.len() implies #[trigger] rest[i]
            >= s1.last_update_ms by {
            assert(rest[i] == times[i + 1]);
            assert(times[0] <= times[i + 1]);
        }
        assert forall|i: int, j: int| 0 <= i <= j < rest.len() implies #[trigger] rest[i]
            <= #[trigger] rest[j] by {
            assert(rest[i] == times[i + 1]);
            assert(rest[j] == times[j + 1]);
            assert(times[i + 1] <= times[j + 1]);
        }
        lemma_bucket_run_invariant(s1, rest);
        let (e2, g2) = spec_bucket_run(s1, rest);
        assert(g2 * TOKEN_UNIT + e2.token_units <= s1.token_units + (rest.last()
            - s1.last_update_ms) * rate);
        assert(rest.last() == times.last());
        let (end, grants) = spec_bucket_run(b, times);
        assert(end == e2 && grants == g0 + g2);
        assert((g0 + g2) * TOKEN_UNIT == g0 * TOKEN_UNIT + g2 * TOKEN_UNIT) by (nonlinear_arith);
        assert(grants * TOKEN_UNIT == g0 * TOKEN_UNIT + g2 * TOKEN_UNIT);
        assert((t0 - b.last_update_ms) * rate + (times.last() - t0) * rate == (times.last()
            - b.last_update_ms) * rate) by (nonlinear_arith);
    }
}

} // verus!
