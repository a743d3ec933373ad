//! Stream resolver: cache → router → providers → policy → validation →
//! persistence.
//!
//! The network work (calling a provider, sleeping a backoff, probing a
//! cached URI) happens outside the library. The resolver is the state
//! machine that decides, step by step, what to do next: every call of a
//! provider goes through the circuit breaker, fallback is bounded by the
//! policy, one resolution never makes more provider calls than the global
//! cap, and the FIRST real failure is kept as the root cause.

use vstd::prelude::*;

use crate::domain::source::Source;
use crate::domain::stream::StreamResolution;
use crate::domain::track::{track_key, Track};
use crate::media::cache::{get_spec, put_spec, remove_spec, without_provider, MemoryResolutionCache};
use crate::media::failure::{FailureCategory, ResolutionError};
use crate::media::policy::{decide_spec, FailurePolicy, PolicyAction};
use crate::media::provider::ResolveContext;
use crate::media::registry::{
    allow_update, entry_index, failure_update, has_id, reg_allows, success_update,
    StreamRegistry,
};
use crate::media::router::{order, ProviderSnapshot, SnapshotModel};
use crate::text::{decimal, duration_text, duration_text_spec};

verus! {

/// Resolver configuration (durations in milliseconds).
#[derive(Debug, Clone, Copy, PartialEq, Eq, Structural)]
pub struct ResolverConfig {
    pub policy: FailurePolicy,
    /// Timeout applied to EACH individual provider attempt.
    pub attempt_timeout_ms: u64,
}

impl Default for ResolverConfig {
    fn default() -> (c: Self)
        ensures
            c.policy == (FailurePolicy {
                retries_per_provider: 1,
                max_total_attempts: 6,
                base_backoff_ms: 750,
                max_backoff_ms: 4000,
            }),
            c.attempt_timeout_ms == 20_000,
    {
        ResolverConfig { policy: FailurePolicy::default(), attempt_timeout_ms: 20_000 }
    }
}

/// Record of ONE attempt (structured observability).
#[derive(Debug, PartialEq, Eq)]
pub struct AttemptRecord {
    pub provider_id: String,
    /// `None` = not even tried (open circuit).
    pub category: Option<FailureCategory>,
    pub message: String,
    pub latency_ms: u64,
}

/// Mathematical content of an [`AttemptRecord`].
pub struct AttemptModel {
    pub provider_id: Seq<char>,
    pub category: Option<FailureCategory>,
    pub message: Seq<char>,
    pub latency_ms: u64,
}

impl DeepView for AttemptRecord {
    type V = AttemptModel;

    open spec fn deep_view(&self) -> AttemptModel {
        AttemptModel {
            provider_id: self.provider_id@,
            category: self.category,
            message: self.message@,
            latency_ms: self.latency_ms,
        }
    }
}

impl Clone for AttemptRecord {
    fn clone(&self) -> (r: Self)
        ensures
            r.deep_view() == self.deep_view(),
    {
        AttemptRecord {
            provider_id: self.provider_id.clone(),
            category: self.category,
            message: self.message.clone(),
            latency_ms: self.latency_ms,
        }
    }
}

impl AttemptRecord {
    /// Record of a provider skipped because its circuit is open.
    pub fn skipped_circuit(provider_id: &str) -> (r: Self)
        ensures
            r.provider_id@ == provider_id@,
            r.category is None,
            r.message@ == "circuito abierto"@,
            r.latency_ms == 0,
    {
        AttemptRecord {
            provider_id: provider_id.to_owned(),
            category: None,
            message: "circuito abierto".to_owned(),
            latency_ms: 0,
        }
    }
}

/// Final failure of a resolution: `root` keeps the FIRST real error and
/// `attempts` the whole chain.
#[derive(Debug)]
pub struct ResolveError {
    pub key: String,
    pub attempts: Vec<AttemptRecord>,
    pub root: ResolutionError,
}

/// Text of a final failure.
pub open spec fn resolve_error_text(
    key: Seq<char>,
    attempts: Seq<AttemptModel>,
    root: (FailureCategory, Source, Seq<char>),
) -> Seq<char> {
    let head = "no se pudo resolver «"@ + key + "»"@;
    let chain = if attempts.len() == 0 {
        Seq::<char>::empty()
    } else {
        " tras "@ + crate::text::decimal_spec(attempts.len()) + " intento(s)"@ + " ("@
            + join_ids(attempts) + ")"@
    };
    head + chain + ": "@ + crate::media::failure::resolution_error_text(root)
}

/// Provider ids of the attempts joined by " → ".
pub open spec fn join_ids(attempts: Seq<AttemptModel>) -> Seq<char>
    decreases attempts.len(),
{
    if attempts.len() == 0 {
        Seq::empty()
    } else if attempts.len() == 1 {
        attempts[0].provider_id
    } else {
        join_ids(attempts.drop_last()) + " → "@ + attempts.last().provider_id
    }
}

impl ResolveError {
    /// Display text: `no se pudo resolver «key» tras N intento(s) (a → b): root`.
    pub fn to_string(&self) -> (s: String)
        ensures
            s@ == resolve_error_text(self.key@, self.attempts.deep_view(), self.root.deep_view()),
    {
        let mut s = String::from_str("no se pudo resolver «");
        s.append(self.key.as_str());
        s.append("»");
        let ghost head = s@;
        if self.attempts.len() > 0 {
            s.append(" tras ");
            let n = decimal(self.attempts.len() as u64);
            s.append(n.as_str());
            s.append(" intento(s)");
            s.append(" (");
            let ghost before_ids = s@;
            let mut i: usize = 0;
            while i < self.attempts.len()
                invariant
                    i <= self.attempts@.len(),
                    self.attempts@.len() > 0,
                    s@ == before_ids + join_ids(self.attempts.deep_view().subrange(0, i as int)),
                decreases self.attempts@.len() - i,
            {
                let ghost prev = s@;
                if i > 0 {
                    s.append(" → ");
                }
                s.append(self.attempts[i].provider_id.as_str());
                proof {
                    let dv = self.attempts.deep_view();
                    assert(dv.subrange(0, i + 1).drop_last() =~= dv.subrange(0, i as int));
                    assert(dv.subrange(0, i + 1).last() == dv[i as int]);
                    if i == 0 {
                        assert(dv.subrange(0, 0).len() == 0);
                        assert(join_ids(dv.subrange(0, 0)) == Seq::<char>::empty());
                        assert(s@ =~= before_ids + join_ids(dv.subrange(0, 1)));
                    } else {
                        assert(s@ =~= before_ids + join_ids(dv.subrange(0, i + 1)));
                    }
                }
                i = i + 1;
            }
            proof {
                assert(self.attempts.deep_view().subrange(0, self.attempts@.len() as int)
                    =~= self.attempts.deep_view());
            }
            s.append(")");
        }
        s.append(": ");
        let r = self.root.to_string();
        s.append(r.as_str());
        proof {
            let dv = self.attempts.deep_view();
            if self.attempts@.len() == 0 {
                assert(s@ =~= resolve_error_text(self.key@, dv, self.root.deep_view()));
            } else {
                assert(s@ =~= resolve_error_text(self.key@, dv, self.root.deep_view()));
            }
        }
        s
    }
}


impl DeepView for ResolveError {
    type V = (Seq<char>, Seq<AttemptModel>, (FailureCategory, Source, Seq<char>));

    open spec fn deep_view(&self) -> Self::V {
        (self.key@, self.attempts.deep_view(), self.root.deep_view())
    }
}

/// What the outside world answered to a [`ResolveStep::Call`].
#[derive(Debug)]
pub enum ProviderOutcome {
    /// The provider produced a resolution.
    Resolved(StreamResolution),
    /// The provider failed with a classified error.
    Failed(ResolutionError),
    /// The attempt did not finish within the attempt timeout.
    TimedOut,
}

/// Next thing to do for a resolution in progress.
#[derive(Debug)]
pub enum ResolveStep {
    /// Probe the cached resolution live (the validator may repair it), then
    /// answer with [`StreamResolver::on_probe`].
    Probe(StreamResolution),
    /// Wait `delay_ms`, then ask provider `provider_id` within `context`
    /// (`attempt` = retries already made against it), then answer with
    /// [`StreamResolver::on_outcome`].
    Call { provider_id: String, attempt: u32, delay_ms: u64, context: ResolveContext },
    /// Finished.
    Done(Result<StreamResolution, ResolveError>),
}

/// State of one resolution in progress: the plan of providers, the
/// position in it, the retry and global counters and the chain of attempts.
pub struct ResolveRun {
    key: String,
    source: Source,
    plan: Vec<ProviderSnapshot>,
    pos: usize,
    attempt: u32,
    total: u32,
    context: ResolveContext,
    attempts: Vec<AttemptRecord>,
    root: Option<ResolutionError>,
}

/// Mathematical content of a [`ResolveRun`].
pub struct RunModel {
    pub key: Seq<char>,
    pub source: Source,
    pub plan: Seq<SnapshotModel>,
    pub pos: int,
    pub attempt: u32,
    pub total: u32,
    pub context: ResolveContext,
    pub attempts: Seq<AttemptModel>,
    pub root: Option<(FailureCategory, Source, Seq<char>)>,
}

impl View for ResolveRun {
    type V = RunModel;

    closed spec fn view(&self) -> RunModel {
        RunModel {
            key: self.key@,
            source: self.source,
            plan: self.plan.deep_view(),
            pos: self.pos as int,
            attempt: self.attempt,
            total: self.total,
            context: self.context,
            attempts: self.attempts.deep_view(),
            root: self.root.deep_view(),
        }
    }
}

/// Category and message of the first attempt that really failed.
pub open spec fn first_failure(attempts: Seq<AttemptModel>) -> Option<(FailureCategory, Seq<char>)>
    decreases attempts.len(),
{
    if attempts.len() == 0 {
        None
    } else {
        match first_failure(attempts.drop_last()) {
            Some(f) => Some(f),
            None => match attempts.last().category {
                Some(c) => Some((c, attempts.last().message)),
                None => None,
            },
        }
    }
}

/// The root cause is the first real failure of the chain (none while
/// nothing failed).
pub open spec fn root_is_first(
    attempts: Seq<AttemptModel>,
    root: Option<(FailureCategory, Source, Seq<char>)>,
) -> bool {
    match root {
        None => first_failure(attempts) is None,
        Some(e) => first_failure(attempts) == Some((e.0, e.2)),
    }
}

/// Invariant of a run: position inside the plan, retries within the
/// per-provider cap, provider calls within the global cap, root = first
/// failure.
pub open spec fn run_wf(m: RunModel, cfg: ResolverConfig) -> bool {
    &&& 0 <= m.pos <= m.plan.len()
    &&& m.attempt <= cfg.policy.retries_per_provider
    &&& m.total <= cfg.policy.max_total_attempts
    &&& root_is_first(m.attempts, m.root)
}

/// Root reported when no provider could even be tried.
pub open spec fn untried_root(source: Source) -> (FailureCategory, Source, Seq<char>) {
    (FailureCategory::ProviderUnavailable, source, "ningún proveedor pudo ser intentado"@)
}

/// Root reported when the plan is empty.
pub open spec fn no_candidates_root(source: Source) -> (FailureCategory, Source, Seq<char>) {
    (FailureCategory::ProviderUnavailable, source, "sin proveedores disponibles para este track"@)
}

/// Final error of a run that ran out of providers.
pub open spec fn final_error(m: RunModel) -> (Seq<char>, Seq<AttemptModel>, (FailureCategory, Source, Seq<char>)) {
    (m.key, m.attempts, match m.root {
        Some(e) => e,
        None => untried_root(m.source),
    })
}

/// Deadline `timeout_ms` after `now` (saturating).
pub open spec fn deadline_after(now: u64, timeout_ms: u64) -> u64 {
    if now + timeout_ms > u64::MAX {
        u64::MAX
    } else {
        (now + timeout_ms) as u64
    }
}

/// Message of an attempt that hit the timeout.
pub open spec fn timeout_message(id: Seq<char>, timeout_ms: u64) -> Seq<char> {
    id + " no respondió en "@ + duration_text_spec(timeout_ms as nat)
}

/// The failure an outcome stands for (none for a structurally valid
/// resolution).
pub open spec fn outcome_failure(o: ProviderOutcome, cand: SnapshotModel, timeout_ms: u64) -> Option<(FailureCategory, Source, Seq<char>)> {
    match o {
        ProviderOutcome::Resolved(r) => if r.uri@.len() > 0 {
            None
        } else {
            Some((FailureCategory::InvalidResponse, r.provider, "la resolución no tiene URI"@))
        },
        ProviderOutcome::Failed(e) => Some(e.deep_view()),
        ProviderOutcome::TimedOut => Some(
            (FailureCategory::Timeout, cand.source, timeout_message(cand.id, timeout_ms)),
        ),
    }
}

/// Record of a provider passed over because its breaker refused it.
pub open spec fn skip_record(id: Seq<char>) -> AttemptModel {
    AttemptModel { provider_id: id, category: None, message: "circuito abierto"@, latency_ms: 0 }
}

/// Skip records of the plan positions `from .. to`, in plan order.
pub open spec fn skips(plan: Seq<SnapshotModel>, from: int, to: int) -> Seq<AttemptModel> {
    Seq::new((to - from) as nat, |i: int| skip_record(plan[from + i].id))
}

/// First position at or after `from` whose provider the registry lets
/// through at `now` (the plan's length when there is none).
pub open spec fn next_allowed(
    plan: Seq<SnapshotModel>,
    reg: Seq<crate::media::registry::EntryModel>,
    now: u64,
    from: int,
) -> int
    decreases plan.len() - from,
{
    if from < 0 || from >= plan.len() {
        plan.len() as int
    } else if reg_allows(reg, plan[from].id, now) {
        from
    } else {
        next_allowed(plan, reg, now, from + 1)
    }
}

/// A run moved along its plan from `m0` to `m1` (registry `reg0` to
/// `reg1`) and took `step`. Once the global cap of provider calls is
/// reached nothing more is called and the run ends with its final error.
/// Otherwise the first provider at or after the position whose breaker
/// lets it through is called, every provider passed over on the way is
/// recorded as skipped, and only when no such provider is left does the run
/// end with its final error.
pub open spec fn advanced(
    step: ResolveStep,
    m0: RunModel,
    m1: RunModel,
    reg0: Seq<crate::media::registry::EntryModel>,
    reg1: Seq<crate::media::registry::EntryModel>,
    now: u64,
    cfg: ResolverConfig,
) -> bool {
    &&& m1.key == m0.key
    &&& m1.source == m0.source
    &&& m1.plan == m0.plan
    &&& m1.root == m0.root
    &&& if m0.total >= cfg.policy.max_total_attempts {
        &&& m1 == m0
        &&& reg1 == reg0
        &&& step matches ResolveStep::Done(Err(e)) && e.deep_view() == final_error(m1)
    } else {
        let p = next_allowed(m0.plan, reg0, now, m0.pos);
        &&& m1.pos == p
        &&& m1.attempts == m0.attempts + skips(m0.plan, m0.pos, p)
        &&& if p < m0.plan.len() {
            &&& reg1 == allow_update(reg0, m0.plan[p].id, now)
            &&& m1.total == m0.total + 1
            &&& m1.attempt == 0
            &&& m1.context == (ResolveContext { deadline: Some(deadline_after(now, cfg.attempt_timeout_ms)) })
            &&& step matches ResolveStep::Call { provider_id, attempt, delay_ms, context }
                && provider_id@ == m0.plan[p].id
                && attempt == 0
                && delay_ms == 0
                && context == m1.context
        } else {
            &&& reg1 == reg0
            &&& m1.total == m0.total
            &&& m1.attempt == m0.attempt
            &&& m1.context == m0.context
            &&& step matches ResolveStep::Done(Err(e)) && e.deep_view() == final_error(m1)
        }
    }
}

/// `plan` orders the providers that the registry offers for `track` at
/// `now`: registration order, then stably by priority and recent failures.
pub open spec fn planned(reg: Seq<crate::media::registry::EntryModel>, track: Track, now: u64, plan: Seq<SnapshotModel>) -> bool {
    exists|snaps: Seq<SnapshotModel>, p1: Seq<int>, p2: Seq<int>|
        crate::media::router::stable_sorted_by(
            crate::media::registry::candidates(reg, track, now),
            snaps,
            false,
            p1,
        ) && crate::media::router::stable_sorted_by(snaps, plan, true, p2)
}

/// A run before its first step.
pub open spec fn run_start(key: Seq<char>, source: Source, plan: Seq<SnapshotModel>) -> RunModel {
    RunModel {
        key,
        source,
        plan,
        pos: 0,
        attempt: 0,
        total: 0,
        context: ResolveContext { deadline: None },
        attempts: Seq::empty(),
        root: None,
    }
}

/// A network resolution started: the plan comes from the registry; an
/// empty plan ends at once, otherwise the run moved along the plan from its
/// start.
pub open spec fn network_started(
    step: ResolveStep,
    m: RunModel,
    reg0: Seq<crate::media::registry::EntryModel>,
    reg1: Seq<crate::media::registry::EntryModel>,
    track: Track,
    now: u64,
    cfg: ResolverConfig,
) -> bool {
    &&& planned(reg0, track, now, m.plan)
    &&& m.key == track_key(track)
    &&& m.source == track.source
    &&& if m.plan.len() == 0 {
        &&& m == run_start(m.key, m.source, m.plan)
        &&& reg1 == reg0
        &&& step matches ResolveStep::Done(Err(e)) && e.deep_view() == (
            m.key,
            Seq::<AttemptModel>::empty(),
            no_candidates_root(m.source),
        )
    } else {
        advanced(step, run_start(m.key, m.source, m.plan), m, reg0, reg1, now, cfg)
    }
}

proof fn lemma_first_failure_push(a: Seq<AttemptModel>, x: AttemptModel)
    ensures
        first_failure(a.push(x)) == match first_failure(a) {
            Some(f) => Some(f),
            None => match x.category {
                Some(c) => Some((c, x.message)),
                None => None,
            },
        },
{
    assert(a.push(x).drop_last() =~= a);
}

proof fn lemma_refused_keeps_registry(s: Seq<crate::media::registry::EntryModel>, id: Seq<char>, now: u64)
    requires
        !reg_allows(s, id, now),
    ensures
        allow_update(s, id, now) == s,
{
    if has_id(s, id) {
        let i = entry_index(s, id);
        assert(allow_update(s, id, now) =~= s);
    }
}

/// Central resolver: registry, cache, whether a live validator is installed
/// and the configuration.
pub struct StreamResolver {
    registry: StreamRegistry,
    cache: MemoryResolutionCache,
    has_validator: bool,
    config: ResolverConfig,
}

impl StreamResolver {
    /// The provider registry.
    pub closed spec fn reg(&self) -> StreamRegistry {
        self.registry
    }

    /// The resolution cache.
    pub closed spec fn cch(&self) -> MemoryResolutionCache {
        self.cache
    }

    /// The configuration.
    pub closed spec fn cfg(&self) -> ResolverConfig {
        self.config
    }

    /// Whether cached hits are probed live before being served.
    pub closed spec fn validating(&self) -> bool {
        self.has_validator
    }

    /// Resolver invariant: registry and cache are well formed.
    pub open spec fn wf(&self) -> bool {
        self.reg().wf() && self.cch().wf()
    }

    /// Resolver over a registry and a cache, without live validation.
    pub fn new(registry: StreamRegistry, cache: MemoryResolutionCache, config: ResolverConfig) -> (r: Self)
        ensures
            r.reg() == registry,
            r.cch() == cache,
            r.cfg() == config,
            !r.validating(),
    {
        StreamResolver { registry, cache, has_validator: false, config }
    }

    /// Installs the live check of cached hits.
    pub fn with_validator(self) -> (r: Self)
        ensures
            r.reg() == self.reg(),
            r.cch() == self.cch(),
            r.cfg() == self.cfg(),
            r.validating(),
    {
        StreamResolver { has_validator: true, ..self }
    }

    /// The provider registry.
    pub fn registry(&self) -> (r: &StreamRegistry)
        ensures
            *r == self.reg(),
    {
        &self.registry
    }

    /// The provider registry, for registration and hot switch-off.
    pub fn registry_mut(&mut self) -> (r: &mut StreamRegistry)
        ensures
            *r == old(self).reg(),
            final(self).reg() == *final(r),
            final(self).cch() == old(self).cch(),
            final(self).cfg() == old(self).cfg(),
            final(self).validating() == old(self).validating(),
    {
        &mut self.registry
    }

    /// The resolution cache.
    pub fn cache(&self) -> (c: &MemoryResolutionCache)
        ensures
            *c == self.cch(),
    {
        &self.cache
    }

    /// The configuration.
    pub fn config(&self) -> (c: &ResolverConfig)
        ensures
            *c == self.cfg(),
    {
        &self.config
    }

    /// The resolution cache, for seeding and inspection.
    pub fn cache_mut(&mut self) -> (c: &mut MemoryResolutionCache)
        ensures
            *c == old(self).cch(),
            final(self).cch() == *final(c),
            final(self).reg() == old(self).reg(),
            final(self).cfg() == old(self).cfg(),
            final(self).validating() == old(self).validating(),
    {
        &mut self.cache
    }

    /// Invalidates the cached resolution of a track (e.g. a hot failure
    /// reported by the playback engine).
    pub fn invalidate(&mut self, track: &Track)
        requires
            old(self).wf(),
        ensures
            final(self).wf(),
            final(self).reg() == old(self).reg(),
            final(self).cfg() == old(self).cfg(),
            final(self).validating() == old(self).validating(),
            final(self).cch().spec_capacity() == old(self).cch().spec_capacity(),
            final(self).cch()@ == remove_spec(old(self).cch()@, track_key(*track)),
    {
        let key = track.identifier();
        self.cache.invalidate(key.as_str());
    }

    /// Invalidates every cached resolution of a source.
    pub fn invalidate_provider(&mut self, source: Source)
        requires
            old(self).wf(),
        ensures
            final(self).wf(),
            final(self).reg() == old(self).reg(),
            final(self).cfg() == old(self).cfg(),
            final(self).validating() == old(self).validating(),
            final(self).cch().spec_capacity() == old(self).cch().spec_capacity(),
            final(self).cch()@ == without_provider(old(self).cch()@, source),
    {
        self.cache.clear_provider(source);
    }

    /// Moves along the plan from the current position: nothing is called
    /// once the global cap is reached; otherwise providers whose breaker
    /// refuses are recorded as skipped and the first one let through is
    /// called.
    fn advance(&mut self, run: &mut ResolveRun, now: u64) -> (step: ResolveStep)
        requires
            old(self).wf(),
            run_wf(old(run)@, old(self).cfg()),
        ensures
            final(self).wf(),
            final(self).cch() == old(self).cch(),
            final(self).cfg() == old(self).cfg(),
            final(self).validating() == old(self).validating(),
            run_wf(final(run)@, final(self).cfg()),
            advanced(step, old(run)@, final(run)@, old(self).reg()@, final(self).reg()@, now, final(self).cfg()),
    {
        if self.config.policy.total_exhausted(run.total) {
            return ResolveStep::Done(Err(final_error_of(run)));
        }
        let ghost m0 = run@;
        let ghost reg0 = self.registry@;
        proof {
            assert(m0.attempts + skips(m0.plan, m0.pos, m0.pos) =~= m0.attempts);
        }
        while run.pos < run.plan.len()
            invariant
                self.wf(),
                self.cch() == old(self).cch(),
                self.cfg() == old(self).cfg(),
                self.validating() == old(self).validating(),
                self.registry@ == reg0,
                reg0 == old(self).reg()@,
                m0 == old(run)@,
                m0.total < self.cfg().policy.max_total_attempts,
                run_wf(run@, self.cfg()),
                run@ == (RunModel { pos: run@.pos, attempts: run@.attempts, ..m0 }),
                m0.pos <= run@.pos <= m0.plan.len(),
                next_allowed(m0.plan, reg0, now, run@.pos) == next_allowed(m0.plan, reg0, now, m0.pos),
                run@.attempts == m0.attempts + skips(m0.plan, m0.pos, run@.pos),
            decreases run.plan@.len() - run.pos,
        {
            let ghost before = run@;
            proof {
                assert(run.plan.deep_view().len() == run.plan@.len());
            }
            let allowed = self.registry.allow_attempt(run.plan[run.pos].id.as_str(), now);
            if allowed {
                let timeout = self.config.attempt_timeout_ms;
                let deadline = if now > u64::MAX - timeout { u64::MAX } else { now + timeout };
                run.context = ResolveContext::with_deadline(deadline);
                run.attempt = 0;
                run.total = run.total + 1;
                let step = ResolveStep::Call {
                    provider_id: run.plan[run.pos].id.clone(),
                    attempt: 0,
                    delay_ms: 0,
                    context: run.context,
                };
                return step;
            }
            proof {
                lemma_refused_keeps_registry(reg0, m0.plan[before.pos].id, now);
            }
            let rec = AttemptRecord::skipped_circuit(run.plan[run.pos].id.as_str());
            let ghost recm = rec.deep_view();
            run.attempts.push(rec);
            run.pos = run.pos + 1;
            proof {
                lemma_first_failure_push(before.attempts, recm);
                assert(recm == skip_record(m0.plan[before.pos].id));
                assert(skips(m0.plan, m0.pos, before.pos + 1)
                    =~= skips(m0.plan, m0.pos, before.pos).push(recm));
                assert(run@.attempts =~= m0.attempts + skips(m0.plan, m0.pos, run@.pos));
            }
        }
        proof {
            assert(run.plan.deep_view().len() == run.plan@.len());
        }
        ResolveStep::Done(Err(final_error_of(run)))
    }
}

/// The final error of a run.
fn final_error_of(run: &ResolveRun) -> (e: ResolveError)
    ensures
        e.deep_view() == final_error(run@),
{
    ResolveError {
        key: run.key.clone(),
        attempts: clone_attempts(&run.attempts),
        root: match &run.root {
            Some(e) => e.clone(),
            None => ResolutionError::new(
                FailureCategory::ProviderUnavailable,
                run.source,
                "ningún proveedor pudo ser intentado",
            ),
        },
    }
}

impl StreamResolver {
    /// Network path (no cache read): snapshot → plan → first call.
    fn start_network(&mut self, key: String, track: &Track, now: u64) -> (res: (ResolveRun, ResolveStep))
        requires
            old(self).wf(),
            key@ == track_key(*track),
        ensures
            final(self).wf(),
            final(self).cch() == old(self).cch(),
            final(self).cfg() == old(self).cfg(),
            final(self).validating() == old(self).validating(),
            run_wf(res.0@, final(self).cfg()),
            network_started(
                res.1,
                res.0@,
                old(self).reg()@,
                final(self).reg()@,
                *track,
                now,
                final(self).cfg(),
            ),
    {
        let snaps = self.registry.snapshot(track, now);
        let ghost s1 = snaps.deep_view();
        let plan = order(track, snaps);
        proof {
            let p1 = choose|p1: Seq<int>|
                crate::media::router::stable_sorted_by(
                    crate::media::registry::candidates(self.registry@, *track, now),
                    s1,
                    false,
                    p1,
                );
            let p2 = choose|p2: Seq<int>|
                crate::media::router::stable_sorted_by(s1, plan.deep_view(), true, p2);
            assert(planned(self.registry@, *track, now, plan.deep_view()));
        }
        let mut run = ResolveRun {
            key,
            source: track.source,
            plan,
            pos: 0,
            attempt: 0,
            total: 0,
            context: ResolveContext::default(),
            attempts: Vec::new(),
            root: None,
        };
        proof {
            assert(run@.attempts =~= Seq::<AttemptModel>::empty());
        }
        if run.plan.len() == 0 {
            let err = ResolveError {
                key: run.key.clone(),
                attempts: Vec::new(),
                root: ResolutionError::new(
                    FailureCategory::ProviderUnavailable,
                    track.source,
                    "sin proveedores disponibles para este track",
                ),
            };
            proof {
                assert(err.attempts.deep_view() =~= Seq::<AttemptModel>::empty());
            }
            return (run, ResolveStep::Done(Err(err)));
        }
        proof {
            assert(run@ == run_start(run@.key, run@.source, run@.plan));
        }
        let step = self.advance(&mut run, now);
        (run, step)
    }

    /// Starts resolving `track`: a live cached resolution is served (after a
    /// live probe when a validator is installed), otherwise the network
    /// path starts. `now` is monotonic, `wall_now` Unix milliseconds.
    pub fn begin_resolve(&mut self, track: &Track, now: u64, wall_now: i64) -> (res: (ResolveRun, ResolveStep))
        requires
            old(self).wf(),
        ensures
            final(self).wf(),
            final(self).cfg() == old(self).cfg(),
            final(self).validating() == old(self).validating(),
            final(self).cch().spec_capacity() == old(self).cch().spec_capacity(),
            run_wf(res.0@, final(self).cfg()),
            res.0@.key == track_key(*track),
            ({
                let key = track_key(*track);
                let cached = get_spec(old(self).cch()@, key, wall_now);
                let after = crate::media::cache::after_get(old(self).cch()@, key, wall_now);
                match cached {
                    Some(c) => if old(self).validating() {
                        &&& res.1 matches ResolveStep::Probe(p) && p.deep_view() == c
                        &&& final(self).reg() == old(self).reg()
                        &&& final(self).cch()@ == after
                    } else if c.uri.len() > 0 {
                        &&& res.1 matches ResolveStep::Done(Ok(r)) && r.deep_view() == c
                        &&& final(self).reg() == old(self).reg()
                        &&& final(self).cch()@ == after
                    } else {
                        &&& final(self).cch()@ == remove_spec(after, key)
                        &&& network_started(res.1, res.0@, old(self).reg()@, final(self).reg()@, *track, now, final(self).cfg())
                    },
                    None => {
                        &&& final(self).cch()@ == after
                        &&& network_started(res.1, res.0@, old(self).reg()@, final(self).reg()@, *track, now, final(self).cfg())
                    },
                }
            }),
    {
        let key = track.identifier();
        let cached = self.cache.get(key.as_str(), wall_now);
        match cached {
            Some(c) => {
                if self.has_validator {
                    let run = ResolveRun {
                        key,
                        source: track.source,
                        plan: Vec::new(),
                        pos: 0,
                        attempt: 0,
                        total: 0,
                        context: ResolveContext::default(),
                        attempts: Vec::new(),
                        root: None,
                    };
                    proof {
                        assert(run@.attempts =~= Seq::<AttemptModel>::empty());
                    }
                    return (run, ResolveStep::Probe(c));
                }
                if c.validate().is_ok() {
                    let run = ResolveRun {
                        key,
                        source: track.source,
                        plan: Vec::new(),
                        pos: 0,
                        attempt: 0,
                        total: 0,
                        context: ResolveContext::default(),
                        attempts: Vec::new(),
                        root: None,
                    };
                    proof {
                        assert(run@.attempts =~= Seq::<AttemptModel>::empty());
                    }
                    return (run, ResolveStep::Done(Ok(c)));
                }
                self.cache.invalidate(key.as_str());
                self.start_network(key, track, now)
            },
            None => self.start_network(key, track, now),
        }
    }

    /// Forced resolution: drops the cached entry and resolves on the network;
    /// the fresh result overwrites the cache.
    pub fn begin_refresh(&mut self, track: &Track, now: u64) -> (res: (ResolveRun, ResolveStep))
        requires
            old(self).wf(),
        ensures
            final(self).wf(),
            final(self).cfg() == old(self).cfg(),
            final(self).validating() == old(self).validating(),
            final(self).cch().spec_capacity() == old(self).cch().spec_capacity(),
            final(self).cch()@ == remove_spec(old(self).cch()@, track_key(*track)),
            run_wf(res.0@, final(self).cfg()),
            network_started(res.1, res.0@, old(self).reg()@, final(self).reg()@, *track, now, final(self).cfg()),
    {
        let key = track.identifier();
        self.cache.invalidate(key.as_str());
        self.start_network(key, track, now)
    }

    /// Verdict of the live probe of a cached hit: a live and structurally
    /// valid resolution (as possibly repaired by the probe) is served,
    /// otherwise the entry is dropped and the network path starts.
    pub fn on_probe(
        &mut self,
        run: &mut ResolveRun,
        probed: StreamResolution,
        alive: bool,
        track: &Track,
        now: u64,
    ) -> (step: ResolveStep)
        requires
            old(self).wf(),
            old(run)@.key == track_key(*track),
        ensures
            final(self).wf(),
            final(self).cfg() == old(self).cfg(),
            final(self).validating() == old(self).validating(),
            final(self).cch().spec_capacity() == old(self).cch().spec_capacity(),
            run_wf(final(run)@, final(self).cfg()),
            final(run)@.key == track_key(*track),
            if alive && probed.uri@.len() > 0 {
                &&& step matches ResolveStep::Done(Ok(r)) && r.deep_view() == probed.deep_view()
                &&& final(self).reg() == old(self).reg()
                &&& final(self).cch() == old(self).cch()
            } else {
                &&& final(self).cch()@ == remove_spec(old(self).cch()@, track_key(*track))
                &&& network_started(step, final(run)@, old(self).reg()@, final(self).reg()@, *track, now, final(self).cfg())
            },
    {
        if alive && probed.validate().is_ok() {
            let fresh = ResolveRun {
                key: run.key.clone(),
                source: track.source,
                plan: Vec::new(),
                pos: 0,
                attempt: 0,
                total: 0,
                context: ResolveContext::default(),
                attempts: Vec::new(),
                root: None,
            };
            proof {
                assert(fresh@.attempts =~= Seq::<AttemptModel>::empty());
            }
            *run = fresh;
            return ResolveStep::Done(Ok(probed));
        }
        let key = run.key.clone();
        self.cache.invalidate(key.as_str());
        let (fresh, step) = self.start_network(key, track, now);
        *run = fresh;
        step
    }
}

/// Record of a failed attempt.
pub open spec fn failed_attempt(id: Seq<char>, e: (FailureCategory, Source, Seq<char>), latency_ms: u64) -> AttemptModel {
    AttemptModel { provider_id: id, category: Some(e.0), message: e.2, latency_ms }
}

/// Whether the policy retries the same provider after failure `e`: the
/// global cap is not reached and the per-provider decision is a retry.
pub open spec fn retries(cfg: ResolverConfig, total: u32, e: FailureCategory, attempt: u32) -> bool {
    total < cfg.policy.max_total_attempts && decide_spec(cfg.policy, e, attempt) is Retry
}

impl StreamResolver {
    /// Answer of the provider called by the last `Call` step. A valid
    /// resolution is stored in the cache and served; a failure is recorded
    /// (breaker, chain of attempts, root cause) and the policy decides
    /// between a retry against the same provider and moving on in the plan.
    /// Moving on calls the next provider whose breaker lets it through, and
    /// ends the run once the global cap of calls is reached or no provider
    /// is left.
    pub fn on_outcome(
        &mut self,
        run: &mut ResolveRun,
        outcome: ProviderOutcome,
        latency_ms: u64,
        now: u64,
    ) -> (step: ResolveStep)
        requires
            old(self).wf(),
            run_wf(old(run)@, old(self).cfg()),
            old(run)@.pos < old(run)@.plan.len(),
        ensures
            final(self).wf(),
            final(self).cfg() == old(self).cfg(),
            final(self).validating() == old(self).validating(),
            final(self).cch().spec_capacity() == old(self).cch().spec_capacity(),
            run_wf(final(run)@, final(self).cfg()),
            final(run)@.key == old(run)@.key,
            final(run)@.plan == old(run)@.plan,
            ({
                let m = old(run)@;
                let cand = m.plan[m.pos];
                let cfg = old(self).cfg();
                match outcome_failure(outcome, cand, cfg.attempt_timeout_ms) {
                    None => {
                        &&& outcome matches ProviderOutcome::Resolved(r0)
                        &&& step matches ResolveStep::Done(Ok(r)) && r.deep_view() == r0.deep_view()
                        &&& final(self).cch()@ == put_spec(old(self).cch()@, m.key, r0.deep_view(), old(self).cch().spec_capacity())
                        &&& final(self).reg()@ == success_update(old(self).reg()@, cand.id)
                        &&& final(run)@ == m
                    },
                    Some(e) => {
                        let rec = failed_attempt(cand.id, e, latency_ms);
                        let root = if m.root is None { Some(e) } else { m.root };
                        let failed = RunModel { attempts: m.attempts.push(rec), root, ..m };
                        let reg = failure_update(old(self).reg()@, cand.id, now);
                        &&& final(self).cch() == old(self).cch()
                        &&& if retries(cfg, m.total, e.0, m.attempt) {
                            &&& step matches ResolveStep::Call { provider_id, attempt, delay_ms, context }
                                && provider_id@ == cand.id
                                && attempt == m.attempt + 1
                                && decide_spec(cfg.policy, e.0, m.attempt) == (PolicyAction::Retry { delay_ms })
                                && context == m.context
                            &&& final(self).reg()@ == reg
                            &&& final(run)@ == (RunModel {
                                attempt: (m.attempt + 1) as u32,
                                total: (m.total + 1) as u32,
                                ..failed
                            })
                        } else {
                            advanced(
                                step,
                                RunModel { pos: m.pos + 1, attempt: 0, ..failed },
                                final(run)@,
                                reg,
                                final(self).reg()@,
                                now,
                                cfg,
                            )
                        }
                    },
                }
            }),
    {
        let ghost m = run@;
        assert(run.plan.deep_view().len() == run.plan@.len());
        let id = run.plan[run.pos].id.clone();
        let failure = match outcome {
            ProviderOutcome::Resolved(r) => {
                match r.validate() {
                    Ok(()) => {
                        self.registry.record_success(id.as_str());
                        let stored = r.clone();
                        self.cache.put(run.key.as_str(), stored);
                        return ResolveStep::Done(Ok(r));
                    },
                    Err(invalid) => ResolutionError::new(
                        FailureCategory::InvalidResponse,
                        r.provider,
                        invalid.message(),
                    ),
                }
            },
            ProviderOutcome::Failed(e) => e,
            ProviderOutcome::TimedOut => {
                let mut msg = id.clone();
                msg.append(" no respondió en ");
                let d = duration_text(self.config.attempt_timeout_ms);
                msg.append(d.as_str());
                ResolutionError::new(
                    FailureCategory::Timeout,
                    run.plan[run.pos].source,
                    msg.as_str(),
                )
            },
        };
        let ghost e = failure.deep_view();
        self.registry.record_failure(id.as_str(), now);
        if run.root.is_none() {
            run.root = Some(failure.clone());
        }
        let rec = AttemptRecord {
            provider_id: id.clone(),
            category: Some(failure.category),
            message: failure.message.clone(),
            latency_ms,
        };
        let ghost recm = rec.deep_view();
        run.attempts.push(rec);
        proof {
            lemma_first_failure_push(m.attempts, recm);
            assert(run@.attempts == m.attempts.push(recm));
        }
        let exhausted = self.config.policy.total_exhausted(run.total);
        if !exhausted {
            match self.config.policy.decide(&failure, run.attempt) {
                PolicyAction::Retry { delay_ms } => {
                    run.attempt = run.attempt + 1;
                    run.total = run.total + 1;
                    return ResolveStep::Call {
                        provider_id: id,
                        attempt: run.attempt,
                        delay_ms,
                        context: run.context,
                    };
                },
                PolicyAction::Fallback => {},
            }
        }
        let n = run.plan.len();
        assert(run.pos < n);
        run.pos = run.pos + 1;
        run.attempt = 0;
        let step = self.advance(run, now);
        step
    }
}

/// Copy of a chain of attempts.
fn clone_attempts(v: &Vec<AttemptRecord>) -> (r: Vec<AttemptRecord>)
    ensures
        r.deep_view() == v.deep_view(),
{
    let r = v.clone();
    proof {
        assert(r.deep_view() =~= v.deep_view());
    }
    r
}

/// When a resolution gives up, the error keeps the FIRST real failure of
/// the chain as its root; only when no provider could even be tried is the
/// root "no provider could be tried".
pub proof fn law_final_error_keeps_first_failure(m: RunModel, cfg: ResolverConfig)
    requires
        run_wf(m, cfg),
    ensures
        match first_failure(m.attempts) {
            Some(f) => final_error(m).2.0 == f.0 && final_error(m).2.2 == f.1,
            None => final_error(m).2 == untried_root(m.source),
        },
        final_error(m).1 == m.attempts,
{
}

/// Per provider, the number of retries never exceeds the policy, and the
/// provider calls of one resolution, summed over all providers, never exceed
/// the global cap.
pub proof fn law_attempts_bounded(m: RunModel, cfg: ResolverConfig)
    requires
        run_wf(m, cfg),
    ensures
        m.attempt <= cfg.policy.retries_per_provider,
        m.total <= cfg.policy.max_total_attempts,
{
}

/// Moving on calls the first provider of the rest of the plan whose breaker
/// lets it through; every provider passed over had been refused by its
/// breaker, and when none is left nothing is called.
pub proof fn law_next_allowed_is_first(
    plan: Seq<SnapshotModel>,
    reg: Seq<crate::media::registry::EntryModel>,
    now: u64,
    from: int,
)
    requires
        0 <= from <= plan.len(),
    ensures
        from <= next_allowed(plan, reg, now, from) <= plan.len(),
        next_allowed(plan, reg, now, from) < plan.len() ==> reg_allows(
            reg,
            plan[next_allowed(plan, reg, now, from)].id,
            now,
        ),
        forall|k: int|
            from <= k < next_allowed(plan, reg, now, from) ==> !reg_allows(
                reg,
                #[trigger] plan[k].id,
                now,
            ),
    decreases plan.len() - from,
{
    if from < plan.len() && !reg_allows(reg, plan[from].id, now) {
        law_next_allowed_is_first(plan, reg, now, from + 1);
    }
}

} // verus!
