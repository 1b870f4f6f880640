//! Exponential retry backoff: delays double on each consecutive failure,
//! saturate at a maximum, and reset on the first success.

use vstd::arithmetic::power2::lemma_pow2_unfold;
use vstd::arithmetic::power2::pow2;
use vstd::prelude::*;

verus! {

/// The delay that follows `delay` after one more failure: doubled, capped.
pub open spec fn spec_next_backoff(delay: u64, max: u64) -> int {
    if 2 * delay <= max {
        2 * delay
    } else {
        max as int
    }
}

/// The delay in force after `k` consecutive failures, starting from `init`.
pub open spec fn backoff_after(k: nat, init: u64, max: u64) -> int
    decreases k,
{
    if k == 0 {
        init as int
    } else {
        let prev = backoff_after((k - 1) as nat, init, max);
        if 0 <= prev <= max {
            spec_next_backoff(prev as u64, max)
        } else {
            max as int
        }
    }
}

/// File and container watchers retry after 1 s at first.
pub const INITIAL_RETRY_DELAY_SECS: u64 = 1;

/// File and container watcher delays saturate at 60 s.
pub const MAX_RETRY_DELAY_SECS: u64 = 60;

/// Health check loops retry after 5 s at first.
pub const HEALTH_INITIAL_RETRY_SECS: u64 = 5;

/// Health check delays saturate at 300 s.
pub const HEALTH_MAX_RETRY_SECS: u64 = 300;

/// Retry state of one long-lived task: the delay to sleep before the next
/// attempt.
#[derive(Debug, Clone, Copy, PartialEq, Eq, Structural)]
pub struct RetryBackoff {
    pub delay: u64,
    pub init: u64,
    pub max: u64,
}

impl RetryBackoff {
    pub open spec fn wf(&self) -> bool {
        1 <= self.init <= self.delay <= self.max && self.max <= u64::MAX / 2
    }

    pub fn new(init: u64, max: u64) -> (r: Self)
        requires
            1 <= init <= max,
            max <= u64::MAX / 2,
        ensures
            r.delay == init,
            r.init == init,
            r.max == max,
            r.wf(),
    {
        RetryBackoff { delay: init, init, max }
    }

    /// One more failure: hand out the delay to sleep now, and double it
    /// (capped at the maximum) for the next failure.
    pub fn advance(&mut self) -> (r: u64)
        requires
            old(self).wf(),
        ensures
            r == old(self).delay,
            final(self).delay == spec_next_backoff(old(self).delay, old(self).max),
            final(self).init == old(self).init,
            final(self).max == old(self).max,
            final(self).wf(),
    {
        let current = self.delay;
        if self.delay <= self.max / 2 {
            self.delay = self.delay * 2;
        } else {
            self.delay = self.max;
        }
        current
    }

    /// BACKOFF RESET: the first success resets the delay to the initial one.
    pub fn reset(&mut self)
        requires
            old(self).wf(),
        ensures
            final(self).delay == old(self).init,
            final(self).init == old(self).init,
            final(self).max == old(self).max,
            final(self).wf(),
    {
        self.delay = self.init;
    }
}

/// BACKOFF LAW: after `k` consecutive failures the delay in force is
/// exactly `min(init * 2^k, max)` — for the file and container watchers
/// (init 1, max 60) the slept delays run 1, 2, 4, …, 32, 60, 60, 60, …
pub proof fn lemma_backoff_exact(k: nat, init: u64, max: u64)
    requires
        1 <= init <= max,
        max <= u64::MAX / 2,
    ensures
        backoff_after(k, init, max) == if init * pow2(k) <= max {
            init * pow2(k)
        } else {
            max as int
        },
        init <= backoff_after(k, init, max) <= max,
    decreases k,
{
    if k == 0 {
        assert(pow2(0) == 1) by {
            vstd::arithmetic::power2::lemma2_to64();
        }
    } else {
        lemma_backoff_exact((k - 1) as nat, init, max);
        lemma_pow2_unfold(k);
        let prev = backoff_after((k - 1) as nat, init, max);
        assert(init * pow2(k) == 2 * (init * pow2((k - 1) as nat))) by (nonlinear_arith)
            requires
                pow2(k) == 2 * pow2((k - 1) as nat),
        ;
        if init * pow2((k - 1) as nat) <= max {
            assert(prev == init * pow2((k - 1) as nat));
        } else {
            assert(prev == max);
            assert(init * pow2(k) >= init * pow2((k - 1) as nat)) by (nonlinear_arith)
                requires
                    init >= 1,
                    pow2(k) >= pow2((k - 1) as nat),
            ;
        }
    }
}

/// BACKOFF MONOTONICITY: with each further failure the delay never shrinks,
/// and it never passes the maximum.
pub proof fn lemma_backoff_monotone(k: nat, init: u64, max: u64)
    requires
        1 <= init <= max,
        max <= u64::MAX / 2,
    ensures
        backoff_after(k + 1, init, max) >= backoff_after(k, init, max),
        backoff_after(k, init, max) <= max,
{
    lemma_backoff_exact(k, init, max);
    lemma_backoff_exact(k + 1, init, max);
    lemma_pow2_unfold(k + 1);
    assert(init * pow2(k + 1) == 2 * (init * pow2(k))) by (nonlinear_arith)
        requires
            pow2(k + 1) == 2 * pow2(k),
    ;
    assert(init * pow2(k) >= 0) by (nonlinear_arith)
        requires
            init >= 1,
            pow2(k) >= 0,
    ;
}

} // verus!
