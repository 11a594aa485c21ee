//! Global token bucket.
//!
//! Token amounts are kept in thousandths of a token and time in
//! milliseconds, so refilling `elapsed * rps` tokens is exact integer
//! arithmetic: `elapsed_ms * rps` thousandths.

use crate::text::{decimal_of, decimal_string};
use vstd::prelude::*;

verus! {

/// One whole token, in thousandths.
pub const TOKEN_UNIT: u64 = 1000;

/// The largest rate whose burst capacity, in thousandths, fits in `u64`.
pub const MAX_REQUESTS_PER_SECOND: u64 = 9_000_000_000_000_000;

/// Rate and burst capacity of the global limiter.
#[derive(Clone, Copy, Debug)]
pub struct RateLimitConfig {
    /// Requests admitted per second.
    pub requests_per_second: usize,
    /// Size of the bucket, in whole tokens: twice the rate.
    pub burst_capacity: usize,
}

/// Mathematical state of the bucket.
pub struct BucketView {
    /// Tokens held, in thousandths.
    pub tokens: nat,
    /// Instant of the last refill, in milliseconds.
    pub last_refill: nat,
    pub rps: nat,
    /// Capacity, in thousandths.
    pub capacity: nat,
}

/// The bucket after a refill at `now`: `elapsed * rps` tokens added, capped.
pub open spec fn refill(s: BucketView, now: nat) -> BucketView {
    let elapsed: nat = if now >= s.last_refill { (now - s.last_refill) as nat } else { 0 };
    let t = s.tokens + elapsed * s.rps;
    BucketView {
        tokens: if t <= s.capacity { t } else { s.capacity },
        last_refill: now,
        ..s
    }
}

/// Whether the bucket, refilled at `now`, holds at least one token.
pub open spec fn admits(s: BucketView, now: nat) -> bool {
    refill(s, now).tokens >= TOKEN_UNIT
}

/// The bucket after one `acquire` at `now`.
pub open spec fn step(s: BucketView, now: nat) -> BucketView {
    let r = refill(s, now);
    if r.tokens >= TOKEN_UNIT {
        BucketView { tokens: (r.tokens - TOKEN_UNIT) as nat, ..r }
    } else {
        r
    }
}

/// The bucket after `n` acquisitions, all at `now`.
pub open spec fn run(s: BucketView, now: nat, n: nat) -> BucketView
    decreases n,
{
    if n == 0 {
        s
    } else {
        step(run(s, now, (n - 1) as nat), now)
    }
}

/// Milliseconds until the bucket holds a whole token again, rounded up.
pub open spec fn wait_hint(s: BucketView, now: nat) -> nat {
    let missing = TOKEN_UNIT - refill(s, now).tokens;
    ((missing + s.rps - 1) / (s.rps as int)) as nat
}

/// Single token bucket shared by every request.
pub struct GlobalRateLimiter {
    tokens: u64,
    last_refill: u64,
    config: RateLimitConfig,
}

impl GlobalRateLimiter {
    pub closed spec fn view(&self) -> BucketView {
        BucketView {
            tokens: self.tokens as nat,
            last_refill: self.last_refill as nat,
            rps: self.config.requests_per_second as nat,
            capacity: (self.config.burst_capacity * TOKEN_UNIT) as nat,
        }
    }

    pub closed spec fn wf(&self) -> bool {
        &&& 1 <= self.config.requests_per_second <= MAX_REQUESTS_PER_SECOND
        &&& self.config.burst_capacity == 2 * self.config.requests_per_second
        &&& self.tokens <= self.config.burst_capacity * TOKEN_UNIT
    }

    /// A full bucket of `2 * requests_per_second` tokens, last refilled at `now`.
    pub fn new(requests_per_second: usize, now: u64) -> (r: Self)
        requires
            1 <= requests_per_second <= MAX_REQUESTS_PER_SECOND,
            2 * requests_per_second <= usize::MAX,
        ensures
            r.wf(),
            r.view().rps == requests_per_second,
            r.view().capacity == 2 * requests_per_second * TOKEN_UNIT,
            r.view().tokens == r.view().capacity,
            r.view().last_refill == now,
    {
        let burst_capacity = requests_per_second * 2;
        GlobalRateLimiter {
            tokens: (burst_capacity as u64) * TOKEN_UNIT,
            last_refill: now,
            config: RateLimitConfig { requests_per_second, burst_capacity },
        }
    }

    pub fn config(&self) -> (r: RateLimitConfig)
        ensures
            r.requests_per_second == self.view().rps,
            r.burst_capacity * TOKEN_UNIT == self.view().capacity,
    {
        self.config
    }

    /// A one-line description of the limits, for the log.
    pub fn info(&self) -> (r: String)
        requires
            self.wf(),
        ensures
            r@ == "全局限流: "@ + decimal_of(self.view().rps) + "/秒, 突发容量: "@ + decimal_of(2 * self.view().rps),
    {
        String::from_str("全局限流: ")
            .concat(decimal_string(self.config.requests_per_second as u64).as_str())
            .concat("/秒, 突发容量: ")
            .concat(decimal_string(self.config.burst_capacity as u64).as_str())
    }

    /// Refills the bucket for the time elapsed since the last call, then
    /// takes one token. On rejection returns the milliseconds to wait.
    pub fn acquire(&mut self, now: u64) -> (r: Result<(), u64>)
        requires
            old(self).wf(),
        ensures
            final(self).wf(),
            final(self).view().rps == old(self).view().rps,
            final(self).view().capacity == old(self).view().capacity,
            final(self).view() == step(old(self).view(), now as nat),
            r is Ok <==> admits(old(self).view(), now as nat),
            r matches Err(w) ==> w == wait_hint(old(self).view(), now as nat),
    {
        let rps = self.config.requests_per_second as u64;
        let capacity = (self.config.burst_capacity as u64) * TOKEN_UNIT;
        let elapsed: u64 = if now >= self.last_refill { now - self.last_refill } else { 0 };
        assert((elapsed as u128) * (rps as u128) <= 0xffff_ffff_ffff_ffffu128 * 0xffff_ffff_ffff_ffffu128)
            by (nonlinear_arith)
            requires elapsed <= 0xffff_ffff_ffff_ffffu64, rps <= 0xffff_ffff_ffff_ffffu64;
        let added: u128 = (elapsed as u128) * (rps as u128);
        let total: u128 = (self.tokens as u128) + added;
        self.tokens = if total <= capacity as u128 { total as u64 } else { capacity };
        self.last_refill = now;
        if self.tokens >= TOKEN_UNIT {
            self.tokens = self.tokens - TOKEN_UNIT;
            Ok(())
        } else {
            let missing = TOKEN_UNIT - self.tokens;
            Err((missing + rps - 1) / rps)
        }
    }
}

/// A full bucket admits exactly `2 * rps` requests at one instant, with no
/// rejection in between, and rejects the next one.
pub proof fn lemma_full_bucket_burst(s: BucketView, now: nat)
    requires
        s.rps >= 1,
        s.capacity == 2 * s.rps * TOKEN_UNIT,
        s.tokens == s.capacity,
        now >= s.last_refill,
    ensures
        forall|k: nat| k < 2 * s.rps ==> #[trigger] admits(run(s, now, k), now),
        !admits(run(s, now, 2 * s.rps), now),
{
    assert forall|k: nat| k <= 2 * s.rps implies #[trigger] run(s, now, k).tokens == s.capacity - k * TOKEN_UNIT
        && run(s, now, k).capacity == s.capacity && run(s, now, k).rps == s.rps
        && (k > 0 ==> run(s, now, k).last_refill == now) by {
        lemma_burst_run(s, now, k);
    }
    assert forall|k: nat| k < 2 * s.rps implies #[trigger] admits(run(s, now, k), now) by {
        assert(run(s, now, k).tokens == s.capacity - k * TOKEN_UNIT);
        assert(k + 1 <= 2 * s.rps);
        assert((k + 1) * TOKEN_UNIT <= 2 * s.rps * TOKEN_UNIT) by (nonlinear_arith)
            requires k + 1 <= 2 * s.rps;
    }
    let e = 2 * s.rps;
    assert(run(s, now, e).tokens == 0) by {
        assert(s.capacity == e * TOKEN_UNIT);
    }
    assert(run(s, now, e).last_refill == now);
    lemma_refill_same_instant(run(s, now, e), now);
}

proof fn lemma_refill_same_instant(s: BucketView, now: nat)
    requires
        s.last_refill == now,
        s.tokens <= s.capacity,
    ensures
        refill(s, now).tokens == s.tokens,
{
    let e: nat = 0;
    assert(e * s.rps == 0) by (nonlinear_arith)
        requires e == 0;
}

proof fn lemma_burst_run(s: BucketView, now: nat, k: nat)
    requires
        s.rps >= 1,
        s.capacity == 2 * s.rps * TOKEN_UNIT,
        s.tokens == s.capacity,
        now >= s.last_refill,
        k <= 2 * s.rps,
    ensures
        run(s, now, k).tokens == s.capacity - k * TOKEN_UNIT,
        run(s, now, k).capacity == s.capacity,
        run(s, now, k).rps == s.rps,
        k > 0 ==> run(s, now, k).last_refill == now,
    decreases k,
{
    if k > 0 {
        lemma_burst_run(s, now, (k - 1) as nat);
        let p = run(s, now, (k - 1) as nat);
        assert(k * TOKEN_UNIT <= 2 * s.rps * TOKEN_UNIT) by (nonlinear_arith)
            requires k <= 2 * s.rps;
        let e: nat = (now - p.last_refill) as nat;
        if k > 1 {
            assert(p.last_refill == now);
            lemma_refill_same_instant(p, now);
        } else {
            assert(e * s.rps >= 0) by (nonlinear_arith);
            assert(refill(p, now).tokens == s.capacity);
        }
        assert(refill(p, now).tokens >= TOKEN_UNIT);
    }
}

} // verus!
