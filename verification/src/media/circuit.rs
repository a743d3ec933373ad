//! Per-provider circuit breaker: stop hammering a provider that is known to
//! be failing.
//!
//! ```text
//! Healthy ──consecutive failures ≥ threshold──▶ Open ──cooldown──▶ HalfOpen
//!    ▲                                            │                   │
//!    └──────────── success ◀── probe OK ──────────┘── probe KO ──▶ Open
//! ```
//!
//! `Degraded` is informative (failures below the threshold): it does not
//! block requests. Instants are monotonic milliseconds supplied by the
//! caller, so every transition is reproducible.

use vstd::prelude::*;

verus! {

/// Breaker configuration.
#[derive(Debug, Clone, Copy, PartialEq, Eq, Structural)]
pub struct CircuitConfig {
    /// CONSECUTIVE failures needed to open the circuit.
    pub failure_threshold: u32,
    /// Time (ms) the circuit stays open before a probe is allowed.
    pub cooldown_ms: u64,
}

impl Default for CircuitConfig {
    fn default() -> (c: Self)
        ensures
            c.failure_threshold == 3,
            c.cooldown_ms == 30_000,
    {
        CircuitConfig { failure_threshold: 3, cooldown_ms: 30_000 }
    }
}

/// Observable state of the circuit.
#[derive(Debug, Clone, Copy, PartialEq, Eq, Structural)]
pub enum CircuitState {
    /// No recent failures.
    Healthy,
    /// Consecutive failures below the threshold: still lets everything pass.
    Degraded,
    /// Open: requests are rejected without touching the provider.
    Open,
    /// Cooldown over: ONE probe is allowed to check recovery.
    HalfOpen,
}

/// Mathematical state of a breaker.
pub struct CircuitModel {
    pub failures: u32,
    /// Deadline (ms) while the circuit is open.
    pub open_until: Option<u128>,
    /// Instant (ms) at which the last half-open probe was granted.
    pub probe_granted_at: Option<u64>,
}

/// A breaker that never failed.
pub open spec fn fresh_model() -> CircuitModel {
    CircuitModel { failures: 0, open_until: None, probe_granted_at: None }
}

/// Still inside the open window at `now`.
pub open spec fn is_open_at(m: CircuitModel, now: u64) -> bool {
    match m.open_until {
        Some(until) => (now as int) < until,
        None => false,
    }
}

/// State of the breaker at `now`.
pub open spec fn state_spec(m: CircuitModel, now: u64) -> CircuitState {
    if is_open_at(m, now) {
        CircuitState::Open
    } else if m.open_until is Some {
        CircuitState::HalfOpen
    } else if m.failures == 0 {
        CircuitState::Healthy
    } else {
        CircuitState::Degraded
    }
}

/// Time elapsed since `t`, zero when `t` is in the future.
pub open spec fn elapsed_since(now: u64, t: u64) -> int {
    if now >= t {
        now - t
    } else {
        0
    }
}

/// A granted probe without verdict for more than twice the cooldown is
/// considered abandoned.
pub open spec fn probe_stale(cfg: CircuitConfig, m: CircuitModel, now: u64) -> bool {
    match m.probe_granted_at {
        Some(t) => elapsed_since(now, t) > 2 * cfg.cooldown_ms,
        None => false,
    }
}

/// States a breaker can reach: failures never exceed the threshold, an
/// open (or half-open) circuit holds exactly the threshold of failures, and
/// a probe is only granted while the circuit has been opened.
pub open spec fn breaker_inv(cfg: CircuitConfig, m: CircuitModel) -> bool {
    &&& m.failures <= cfg.failure_threshold
    &&& m.open_until is Some ==> m.failures == cfg.failure_threshold
    &&& m.probe_granted_at is Some ==> m.open_until is Some
}

/// Answer of `allow_request` at `now`.
pub open spec fn allow_spec(cfg: CircuitConfig, m: CircuitModel, now: u64) -> bool {
    if is_open_at(m, now) {
        false
    } else if m.open_until is Some {
        !(m.probe_granted_at is Some && !probe_stale(cfg, m, now))
    } else {
        true
    }
}

/// State after `allow_request` at `now`: a granted half-open probe is
/// recorded.
pub open spec fn after_allow(cfg: CircuitConfig, m: CircuitModel, now: u64) -> CircuitModel {
    if !is_open_at(m, now) && m.open_until is Some && allow_spec(cfg, m, now) {
        CircuitModel { probe_granted_at: Some(now), ..m }
    } else {
        m
    }
}

/// State after a failure at `now`: a failed probe reopens immediately,
/// otherwise failures accumulate towards the threshold.
pub open spec fn after_failure(cfg: CircuitConfig, m: CircuitModel, now: u64) -> CircuitModel {
    if m.probe_granted_at is Some || m.failures + 1 >= cfg.failure_threshold {
        CircuitModel {
            failures: cfg.failure_threshold,
            open_until: Some((now + cfg.cooldown_ms) as u128),
            probe_granted_at: None,
        }
    } else {
        CircuitModel { failures: (m.failures + 1) as u32, open_until: m.open_until, probe_granted_at: None }
    }
}

/// Breaker of one provider.
#[derive(Debug)]
pub struct CircuitBreaker {
    cfg: CircuitConfig,
    consecutive_failures: u32,
    open_until: Option<u128>,
    probe_granted_at: Option<u64>,
}

impl CircuitBreaker {
    /// Internal state.
    pub closed spec fn model(&self) -> CircuitModel {
        CircuitModel {
            failures: self.consecutive_failures,
            open_until: self.open_until,
            probe_granted_at: self.probe_granted_at,
        }
    }

    /// Configuration the breaker was built with.
    pub closed spec fn spec_config(&self) -> CircuitConfig {
        self.cfg
    }

    /// Breaker invariant (see [`breaker_inv`]).
    pub open spec fn wf(&self) -> bool {
        breaker_inv(self.spec_config(), self.model())
    }

    /// Healthy breaker with the given configuration.
    pub fn new(cfg: CircuitConfig) -> (b: Self)
        ensures
            b.model() == fresh_model(),
            b.spec_config() == cfg,
            b.wf(),
    {
        CircuitBreaker { cfg, consecutive_failures: 0, open_until: None, probe_granted_at: None }
    }

    /// Configuration of the breaker.
    pub fn config(&self) -> (c: &CircuitConfig)
        ensures
            *c == self.spec_config(),
    {
        &self.cfg
    }

    /// Current state at `now`. Moving to `HalfOpen` is lazy: it derives from
    /// the clock.
    pub fn state(&self, now: u64) -> (s: CircuitState)
        ensures
            s == state_spec(self.model(), now),
    {
        if self.is_open(now) {
            return CircuitState::Open;
        }
        if self.open_until.is_some() {
            return CircuitState::HalfOpen;
        }
        if self.consecutive_failures == 0 {
            CircuitState::Healthy
        } else {
            CircuitState::Degraded
        }
    }

    fn is_open(&self, now: u64) -> (b: bool)
        ensures
            b == is_open_at(self.model(), now),
    {
        match self.open_until {
            Some(until) => (now as u128) < until,
            None => false,
        }
    }

    /// `true` when a resolution may try this provider now. In `HalfOpen`
    /// exactly one probe is granted; a probe without verdict for more than
    /// twice the cooldown is abandoned and another one may be granted.
    pub fn allow_request(&mut self, now: u64) -> (ok: bool)
        ensures
            ok == allow_spec(old(self).spec_config(), old(self).model(), now),
            final(self).model() == after_allow(old(self).spec_config(), old(self).model(), now),
            final(self).spec_config() == old(self).spec_config(),
            old(self).wf() ==> final(self).wf(),
    {
        if self.is_open(now) {
            return false;
        }
        if self.open_until.is_some() {
            let stale = match self.probe_granted_at {
                Some(t) => {
                    let elapsed: u64 = if now >= t { now - t } else { 0 };
                    (elapsed as u128) > (self.cfg.cooldown_ms as u128) * 2
                },
                None => false,
            };
            if !stale && self.probe_granted_at.is_some() {
                return false;
            }
            self.probe_granted_at = Some(now);
            return true;
        }
        true
    }

    /// A success closes the circuit (recovery).
    pub fn on_success(&mut self)
        ensures
            final(self).model() == fresh_model(),
            final(self).spec_config() == old(self).spec_config(),
            final(self).wf(),
    {
        self.consecutive_failures = 0;
        self.open_until = None;
        self.probe_granted_at = None;
    }

    /// Records a failure at `now`: a failed probe REOPENS immediately,
    /// otherwise it counts towards the opening threshold.
    pub fn on_failure(&mut self, now: u64)
        ensures
            final(self).model() == after_failure(old(self).spec_config(), old(self).model(), now),
            final(self).spec_config() == old(self).spec_config(),
            old(self).wf() ==> final(self).wf(),
    {
        let was_probing = self.probe_granted_at.is_some();
        self.probe_granted_at = None;
        if was_probing || (self.consecutive_failures as u64) + 1 >= self.cfg.failure_threshold as u64 {
            self.open_until = Some((now as u128) + (self.cfg.cooldown_ms as u128));
            self.consecutive_failures = self.cfg.failure_threshold;
            return;
        }
        self.consecutive_failures = self.consecutive_failures + 1;
    }
}

/// A success always brings the breaker back to `Healthy`, and a healthy
/// breaker lets every request through.
pub proof fn law_success_recovers(cfg: CircuitConfig, now: u64)
    ensures
        state_spec(fresh_model(), now) == CircuitState::Healthy,
        allow_spec(cfg, fresh_model(), now),
{
}

/// Below the threshold the circuit stays closed: failures only degrade it,
/// they never block requests.
pub proof fn law_below_threshold_stays_closed(cfg: CircuitConfig, m: CircuitModel, now: u64, later: u64)
    requires
        breaker_inv(cfg, m),
        m.failures + 1 < cfg.failure_threshold,
    ensures
        state_spec(after_failure(cfg, m, now), later) == CircuitState::Degraded,
        allow_spec(cfg, after_failure(cfg, m, now), later),
{
}

/// Reaching the threshold opens the circuit for the whole cooldown, during
/// which every request is rejected.
pub proof fn law_threshold_opens(cfg: CircuitConfig, m: CircuitModel, now: u64, later: u64)
    requires
        m.failures + 1 >= cfg.failure_threshold,
        now <= later,
        later < now + cfg.cooldown_ms,
    ensures
        state_spec(after_failure(cfg, m, now), later) == CircuitState::Open,
        !allow_spec(cfg, after_failure(cfg, m, now), later),
{
}

/// Once the cooldown is over exactly one probe is granted: a second request
/// at the same instant is rejected, and a failed probe reopens the circuit.
pub proof fn law_single_probe(cfg: CircuitConfig, m: CircuitModel, now: u64)
    requires
        state_spec(m, now) == CircuitState::HalfOpen,
        m.probe_granted_at is None,
        cfg.cooldown_ms > 0,
    ensures
        allow_spec(cfg, m, now),
        !allow_spec(cfg, after_allow(cfg, m, now), now),
        state_spec(after_failure(cfg, after_allow(cfg, m, now), now), now) == CircuitState::Open,
{
}

/// An abandoned probe (no verdict after twice the cooldown) does not block
/// recovery forever.
pub proof fn law_abandoned_probe_expires(cfg: CircuitConfig, m: CircuitModel, now: u64)
    requires
        state_spec(m, now) == CircuitState::HalfOpen,
        probe_stale(cfg, m, now),
    ensures
        allow_spec(cfg, m, now),
{
}

/// Every transition keeps the breaker in a reachable state.
pub proof fn law_transitions_keep_invariant(cfg: CircuitConfig, m: CircuitModel, now: u64)
    requires
        breaker_inv(cfg, m),
    ensures
        breaker_inv(cfg, fresh_model()),
        breaker_inv(cfg, after_failure(cfg, m, now)),
        breaker_inv(cfg, after_allow(cfg, m, now)),
{
}

} // verus!
