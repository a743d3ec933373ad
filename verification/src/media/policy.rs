//! Failure policy: retry against the same provider or fall back to the next.
//!
//! The policy is pure: it receives an already classified error and the
//! attempt number and returns the action; the resolver executes it and
//! applies the global caps.

use vstd::prelude::*;

use crate::media::failure::{retryable_spec, FailureCategory, ResolutionError};

verus! {

/// Action decided after a resolution failure.
#[derive(Debug, Clone, Copy, PartialEq, Eq, Structural)]
pub enum PolicyAction {
    /// Repeat against the SAME provider after waiting `delay_ms` milliseconds.
    Retry { delay_ms: u64 },
    /// Give up on this provider and move to the next one of the plan.
    Fallback,
}

/// Bounded retry / fallback configuration (durations in milliseconds).
#[derive(Debug, Clone, Copy, PartialEq, Eq, Structural)]
pub struct FailurePolicy {
    /// ADDITIONAL retries against the same provider after the first failure.
    pub retries_per_provider: u32,
    /// GLOBAL cap on network attempts per resolution.
    pub max_total_attempts: u32,
    /// Base backoff between retries; grows exponentially per attempt.
    pub base_backoff_ms: u64,
    /// Ceiling of the backoff.
    pub max_backoff_ms: u64,
}

impl Default for FailurePolicy {
    fn default() -> (p: Self)
        ensures
            p.retries_per_provider == 1,
            p.max_total_attempts == 6,
            p.base_backoff_ms == 750,
            p.max_backoff_ms == 4000,
    {
        FailurePolicy {
            retries_per_provider: 1,
            max_total_attempts: 6,
            base_backoff_ms: 750,
            max_backoff_ms: 4000,
        }
    }
}

/// Growth factor of the backoff: rate limits wait more aggressively.
pub open spec fn backoff_multiplier(c: FailureCategory) -> nat {
    match c {
        FailureCategory::RateLimited => 4,
        _ => 2,
    }
}

/// `base × mult^n`.
pub open spec fn scaled(base: nat, mult: nat, n: nat) -> nat
    decreases n,
{
    if n == 0 {
        base
    } else {
        scaled(base, mult, (n - 1) as nat) * mult
    }
}

/// Number of growth steps applied for the failure number `attempt`
/// (the multiplier applies from the first retry on).
pub open spec fn backoff_steps(attempt: u32) -> nat {
    if attempt == u32::MAX {
        attempt as nat
    } else {
        (attempt + 1) as nat
    }
}

/// Exponential backoff `base × mult^(attempt+1)`, capped at the maximum.
pub open spec fn backoff_spec(p: FailurePolicy, c: FailureCategory, attempt: u32) -> nat {
    let d = scaled(p.base_backoff_ms as nat, backoff_multiplier(c), backoff_steps(attempt));
    if d >= p.max_backoff_ms {
        p.max_backoff_ms as nat
    } else {
        d
    }
}

/// What the policy answers to the failure number `attempt` of category `c`.
pub open spec fn decide_spec(p: FailurePolicy, c: FailureCategory, attempt: u32) -> PolicyAction {
    if attempt >= p.retries_per_provider || !retryable_spec(c) {
        PolicyAction::Fallback
    } else {
        PolicyAction::Retry { delay_ms: backoff_spec(p, c, attempt) as u64 }
    }
}

/// Scaling grows with the number of steps (multipliers are at least 1).
pub proof fn lemma_scaled_monotone(base: nat, mult: nat, m: nat, n: nat)
    requires
        mult >= 1,
        m <= n,
    ensures
        scaled(base, mult, m) <= scaled(base, mult, n),
    decreases n,
{
    if m < n {
        lemma_scaled_monotone(base, mult, m, (n - 1) as nat);
        let prev = scaled(base, mult, (n - 1) as nat);
        assert(prev * mult >= prev) by (nonlinear_arith)
            requires
                mult >= 1,
        ;
    }
}

/// A larger multiplier never scales less.
pub proof fn lemma_scaled_mult_monotone(base: nat, m1: nat, m2: nat, n: nat)
    requires
        m1 <= m2,
    ensures
        scaled(base, m1, n) <= scaled(base, m2, n),
    decreases n,
{
    if n > 0 {
        lemma_scaled_mult_monotone(base, m1, m2, (n - 1) as nat);
        let a = scaled(base, m1, (n - 1) as nat);
        let b = scaled(base, m2, (n - 1) as nat);
        assert(a * m1 <= b * m2) by (nonlinear_arith)
            requires
                a <= b,
                m1 <= m2,
        ;
    }
}

impl FailurePolicy {
    /// Decision after a failure; `attempt` is the number of attempts ALREADY
    /// failed against this provider (0 = first failure).
    pub fn decide(&self, err: &ResolutionError, attempt: u32) -> (a: PolicyAction)
        ensures
            a == decide_spec(*self, err.category, attempt),
    {
        if attempt >= self.retries_per_provider || !err.category.is_retryable() {
            return PolicyAction::Fallback;
        }
        PolicyAction::Retry { delay_ms: self.backoff(err.category, attempt) }
    }

    /// `true` once the global attempt cap is reached.
    pub fn total_exhausted(&self, total_attempts: u32) -> (b: bool)
        ensures
            b == (total_attempts >= self.max_total_attempts),
    {
        total_attempts >= self.max_total_attempts
    }

    /// Exponential backoff `base × mult^(attempt+1)` capped at the maximum.
    fn backoff(&self, category: FailureCategory, attempt: u32) -> (d: u64)
        ensures
            d == backoff_spec(*self, category, attempt),
    {
        let multiplier: u64 = match category {
            FailureCategory::RateLimited => 4,
            _ => 2,
        };
        let ghost mult = backoff_multiplier(category);
        let ghost base = self.base_backoff_ms as nat;
        let steps = attempt.saturating_add(1);
        let mut d = self.base_backoff_ms;
        let mut i: u32 = 0;
        while i < steps
            invariant
                multiplier == mult,
                mult == backoff_multiplier(category),
                2 <= mult <= 4,
                steps as nat == backoff_steps(attempt),
                steps >= 1,
                i <= steps,
                d == scaled(base, mult, i as nat),
                i > 0 ==> d < self.max_backoff_ms,
                base == self.base_backoff_ms,
            decreases steps - i,
        {
            assert((d as int) * (multiplier as int) <= 0xffff_ffff_ffff_ffffu64 as int * 4)
                by (nonlinear_arith)
                requires
                    multiplier <= 4,
            ;
            let next = (d as u128) * (multiplier as u128);
            proof {
                assert(scaled(base, mult, (i + 1) as nat) == scaled(base, mult, i as nat) * mult);
                assert(next as int == scaled(base, mult, (i + 1) as nat));
            }
            if next >= self.max_backoff_ms as u128 {
                proof {
                    lemma_scaled_monotone(base, mult, (i + 1) as nat, steps as nat);
                    assert(scaled(base, mult, (i + 1) as nat) >= self.max_backoff_ms);
                    assert(scaled(base, mult, steps as nat) >= self.max_backoff_ms);
                }
                return self.max_backoff_ms;
            }
            d = next as u64;
            i = i + 1;
        }
        d
    }
}

/// The backoff never exceeds the configured ceiling.
pub proof fn law_backoff_capped(p: FailurePolicy, c: FailureCategory, attempt: u32)
    ensures
        backoff_spec(p, c, attempt) <= p.max_backoff_ms,
{
}

/// The backoff never shrinks from one failure to the next.
pub proof fn law_backoff_non_decreasing(p: FailurePolicy, c: FailureCategory, a1: u32, a2: u32)
    requires
        a1 <= a2,
    ensures
        backoff_spec(p, c, a1) <= backoff_spec(p, c, a2),
{
    lemma_scaled_monotone(p.base_backoff_ms as nat, backoff_multiplier(c), backoff_steps(a1), backoff_steps(a2));
}

/// A rate-limited failure waits at least as long as any other category.
pub proof fn law_rate_limited_waits_longest(p: FailurePolicy, c: FailureCategory, attempt: u32)
    ensures
        backoff_spec(p, c, attempt) <= backoff_spec(p, FailureCategory::RateLimited, attempt),
{
    lemma_scaled_mult_monotone(p.base_backoff_ms as nat, backoff_multiplier(c), 4, backoff_steps(attempt));
}

/// Retries against one provider are bounded: from the failure number
/// `retries_per_provider` on, the answer is always a fallback; deterministic
/// categories are never retried.
pub proof fn law_retries_bounded(p: FailurePolicy, c: FailureCategory, attempt: u32)
    requires
        attempt >= p.retries_per_provider || !retryable_spec(c),
    ensures
        decide_spec(p, c, attempt) == PolicyAction::Fallback,
{
}

} // verus!
