use playfusion::domain::stream::StreamResolution;
use playfusion::domain::track::Track;
use playfusion::media::cache::MemoryResolutionCache;
use playfusion::media::circuit::CircuitConfig;
use playfusion::media::failure::{FailureCategory, ResolutionError};
use playfusion::media::policy::FailurePolicy;
use playfusion::media::provider::ProviderDescriptor;
use playfusion::media::registry::StreamRegistry;
use playfusion::media::resolver::{
    ProviderOutcome, ResolveError, ResolveStep, ResolverConfig, StreamResolver,
};
use playfusion::Source;

/// Scripted answer of a fake provider.
#[derive(Clone)]
enum Script {
    Serve(&'static str),
    Fail(FailureCategory, &'static str),
    Hang,
    Empty,
}

struct Fake {
    id: &'static str,
    script: Script,
    calls: usize,
}

fn fake(id: &'static str, script: Script) -> Fake {
    Fake { id, script, calls: 0 }
}

fn yt_track(vid: &str) -> Track {
    let mut t = Track::new("T".into(), Vec::new(), Source::YouTube);
    t.external_id = Some(vid.into());
    t
}

fn fast_policy() -> FailurePolicy {
    FailurePolicy { base_backoff_ms: 5, ..FailurePolicy::default() }
}

fn config(policy: FailurePolicy) -> ResolverConfig {
    ResolverConfig { policy, attempt_timeout_ms: 2_000 }
}

/// Runs one resolution to its end, answering each step with the fakes.
fn drive(
    r: &mut StreamResolver,
    fakes: &mut [Fake],
    track: &Track,
    alive: bool,
    refresh: bool,
) -> Result<StreamResolution, ResolveError> {
    let now = 1_000_000u64;
    let wall = 1_787_356_800_000i64;
    let (mut run, mut step) = if refresh {
        r.begin_refresh(track, now)
    } else {
        r.begin_resolve(track, now, wall)
    };
    loop {
        step = match step {
            ResolveStep::Done(result) => return result,
            ResolveStep::Probe(cached) => r.on_probe(&mut run, cached, alive, track, now),
            ResolveStep::Call { provider_id, .. } => {
                let f = fakes.iter_mut().find(|f| f.id == provider_id).expect("known provider");
                f.calls += 1;
                let outcome = match &f.script {
                    Script::Serve(uri) => ProviderOutcome::Resolved(StreamResolution::new(
                        Source::YouTube,
                        format!("https://cdn.fake/{uri}"),
                    )),
                    Script::Fail(c, m) => {
                        ProviderOutcome::Failed(ResolutionError::new(*c, Source::YouTube, m))
                    }
                    Script::Hang => ProviderOutcome::TimedOut,
                    Script::Empty => ProviderOutcome::Resolved(StreamResolution::new(
                        Source::YouTube,
                        String::new(),
                    )),
                };
                r.on_outcome(&mut run, outcome, 1, now)
            }
        };
    }
}

fn resolver_with(providers: &[(&str, u32)], policy: FailurePolicy) -> StreamResolver {
    let mut reg = StreamRegistry::new();
    for (id, prio) in providers {
        reg.register(ProviderDescriptor::with_priority(id, Source::YouTube, *prio));
    }
    StreamResolver::new(reg, MemoryResolutionCache::default(), config(policy))
}

#[test]
fn cache_hit_does_not_touch_providers() {
    let mut fakes = [fake("a", Script::Serve("one"))];
    let mut r = resolver_with(&[("a", 100)], fast_policy());
    let first = drive(&mut r, &mut fakes, &yt_track("v1"), true, false).unwrap();
    assert_eq!(first.uri, "https://cdn.fake/one");
    let second = drive(&mut r, &mut fakes, &yt_track("v1"), true, false).unwrap();
    assert_eq!(second.uri, "https://cdn.fake/one");
    assert_eq!(fakes[0].calls, 1);
}

#[test]
fn expired_cache_entry_forces_network_resolution() {
    let mut fakes = [fake("a", Script::Serve("fresh"))];
    let mut r = resolver_with(&[("a", 100)], fast_policy());
    let mut stale = StreamResolution::new(Source::YouTube, "https://cdn.fake/stale".to_string());
    // 2026-01-01T00:00:00Z
    stale.expires_at = Some(1_767_225_600_000);
    r.cache_mut().put("v1", stale);

    let res = drive(&mut r, &mut fakes, &yt_track("v1"), true, false).unwrap();
    assert_eq!(res.uri, "https://cdn.fake/fresh");
    assert_eq!(fakes[0].calls, 1);
    assert_eq!(
        r.cache_mut().get("v1", 1_787_356_800_000).unwrap().uri,
        "https://cdn.fake/fresh",
        "el resultado fresco reemplaza al caducado"
    );
}

#[test]
fn dead_validator_discards_hit_and_resolves_fresh() {
    let mut fakes = [fake("a", Script::Serve("fresh"))];
    let mut r = resolver_with(&[("a", 100)], fast_policy()).with_validator();
    drive(&mut r, &mut fakes, &yt_track("v1"), true, false).unwrap();
    let res = drive(&mut r, &mut fakes, &yt_track("v1"), false, false).unwrap();
    assert_eq!(res.uri, "https://cdn.fake/fresh");
    assert_eq!(fakes[0].calls, 2);
}

#[test]
fn falls_back_to_next_provider_and_serves_result() {
    let mut fakes = [
        fake("a", Script::Fail(FailureCategory::NetworkFailure, "dns roto")),
        fake("b", Script::Serve("de-b")),
    ];
    let mut reg = StreamRegistry::new();
    reg.register_with_circuit(ProviderDescriptor::new("a", Source::YouTube), CircuitConfig::default());
    reg.register_with_circuit(ProviderDescriptor::new("b", Source::YouTube), CircuitConfig::default());
    let mut r = StreamResolver::new(reg, MemoryResolutionCache::default(), config(fast_policy()));
    let res = drive(&mut r, &mut fakes, &yt_track("v1"), true, false).unwrap();
    assert_eq!(res.uri, "https://cdn.fake/de-b");
    assert_eq!(res.provider, Source::YouTube);
    assert_eq!(fakes[1].calls, 1);
}

#[test]
fn unsupported_falls_back_without_retrying() {
    let mut fakes = [
        fake("a", Script::Fail(FailureCategory::Unsupported, "sin audio")),
        fake("b", Script::Serve("de-b")),
    ];
    let mut r = resolver_with(&[("a", 100), ("b", 100)], fast_policy());
    assert!(drive(&mut r, &mut fakes, &yt_track("v1"), true, false).is_ok());
    assert_eq!(fakes[0].calls, 1, "determinista: sin reintento");
}

#[test]
fn retryable_errors_retry_within_cap_then_fallback() {
    let mut fakes = [
        fake("a", Script::Fail(FailureCategory::NetworkFailure, "intermitente")),
        fake("b", Script::Serve("de-b")),
    ];
    let mut r = resolver_with(&[("a", 100), ("b", 100)], fast_policy());
    let res = drive(&mut r, &mut fakes, &yt_track("v1"), true, false).unwrap();
    assert_eq!(res.uri, "https://cdn.fake/de-b");
    assert_eq!(fakes[0].calls, 2, "primer intento + un reintento");
    assert_eq!(fakes[1].calls, 1);
}

#[test]
fn all_fail_preserves_first_root_cause() {
    let mut fakes = [
        fake("a", Script::Fail(FailureCategory::NetworkFailure, "causa raíz A")),
        fake("b", Script::Fail(FailureCategory::RateLimited, "cuota agotada")),
    ];
    let policy = FailurePolicy { retries_per_provider: 0, ..fast_policy() };
    let mut r = resolver_with(&[("a", 100), ("b", 100)], policy);
    let err = drive(&mut r, &mut fakes, &yt_track("v1"), true, false).unwrap_err();
    assert_eq!(err.attempts.len(), 2);
    assert_eq!(err.root.message, "causa raíz A", "el primer motivo manda");
    assert_eq!(err.root.category, FailureCategory::NetworkFailure);
    assert!(err.to_string().contains("a"), "la cadena de intentos es visible");
}

#[test]
fn no_candidates_reports_provider_unavailable() {
    let mut fakes: [Fake; 0] = [];
    let mut r = resolver_with(&[], fast_policy());
    let err = drive(&mut r, &mut fakes, &yt_track("v1"), true, false).unwrap_err();
    assert_eq!(err.root.category, FailureCategory::ProviderUnavailable);
    assert!(err.attempts.is_empty());
    assert_eq!(err.root.message, "sin proveedores disponibles para este track");
}

#[test]
fn disabled_provider_is_skipped() {
    let mut fakes = [fake("a", Script::Serve("de-a")), fake("b", Script::Serve("de-b"))];
    let mut r = resolver_with(&[("a", 100), ("b", 100)], fast_policy());
    assert!(r.registry_mut().set_enabled("a", false));
    let res = drive(&mut r, &mut fakes, &yt_track("v1"), true, false).unwrap();
    assert_eq!(res.uri, "https://cdn.fake/de-b");
    assert_eq!(fakes[0].calls, 0, "apagado en caliente: ni una llamada");
}

#[test]
fn open_circuit_skips_provider_without_calling_it() {
    let mut fakes = [fake("a", Script::Serve("de-a")), fake("b", Script::Serve("de-b"))];
    let mut reg = StreamRegistry::new();
    reg.register_with_circuit(
        ProviderDescriptor::new("a", Source::YouTube),
        CircuitConfig { failure_threshold: 1, cooldown_ms: 30_000 },
    );
    reg.register(ProviderDescriptor::new("b", Source::YouTube));
    reg.record_failure("a", 1_000_000);
    let mut r = StreamResolver::new(reg, MemoryResolutionCache::default(), config(fast_policy()));
    let res = drive(&mut r, &mut fakes, &yt_track("v1"), true, false).unwrap();
    assert_eq!(res.uri, "https://cdn.fake/de-b");
    assert_eq!(fakes[0].calls, 0, "circuito abierto: el provider no se molesta");
}

#[test]
fn hanging_provider_hits_attempt_timeout_and_falls_back() {
    let mut fakes = [fake("a", Script::Hang), fake("b", Script::Serve("de-b"))];
    let policy = FailurePolicy { retries_per_provider: 0, ..fast_policy() };
    let mut reg = StreamRegistry::new();
    reg.register(ProviderDescriptor::with_priority("a", Source::YouTube, 200));
    reg.register(ProviderDescriptor::new("b", Source::YouTube));
    let mut r = StreamResolver::new(
        reg,
        MemoryResolutionCache::default(),
        ResolverConfig { policy, attempt_timeout_ms: 80 },
    );
    let res = drive(&mut r, &mut fakes, &yt_track("v1"), true, false).unwrap();
    assert_eq!(res.uri, "https://cdn.fake/de-b");
    assert_eq!(res.provider, Source::YouTube);
}

#[test]
fn refresh_bypasses_cache_and_overwrites_it() {
    let mut fakes = [fake("a", Script::Serve("one"))];
    let mut r = resolver_with(&[("a", 100)], fast_policy());
    drive(&mut r, &mut fakes, &yt_track("v1"), true, false).unwrap();
    assert_eq!(fakes[0].calls, 1);
    drive(&mut r, &mut fakes, &yt_track("v1"), true, true).unwrap();
    assert_eq!(fakes[0].calls, 2, "refresh ignora la caché");
}

#[test]
fn structurally_invalid_resolution_is_rejected_and_fallback_runs() {
    let mut fakes = [fake("broken", Script::Empty), fake("good", Script::Serve("de-good"))];
    let mut r = resolver_with(&[("broken", 100), ("good", 100)], fast_policy());
    let res = drive(&mut r, &mut fakes, &yt_track("v1"), true, false).unwrap();
    assert_eq!(res.uri, "https://cdn.fake/de-good");
    assert_eq!(fakes[1].calls, 1);
}

#[test]
fn timeout_and_invalid_messages_are_exact() {
    let mut fakes = [fake("a", Script::Hang), fake("b", Script::Empty)];
    let policy = FailurePolicy { retries_per_provider: 0, ..fast_policy() };
    let mut reg = StreamRegistry::new();
    reg.register(ProviderDescriptor::with_priority("a", Source::YouTube, 200));
    reg.register(ProviderDescriptor::new("b", Source::YouTube));
    let mut r = StreamResolver::new(
        reg,
        MemoryResolutionCache::default(),
        ResolverConfig { policy, attempt_timeout_ms: 1_500 },
    );
    let err = drive(&mut r, &mut fakes, &yt_track("v1"), true, false).unwrap_err();
    assert_eq!(err.root.category, FailureCategory::Timeout);
    assert_eq!(err.root.message, "a no respondió en 1.5s");
    assert_eq!(err.attempts[1].category, Some(FailureCategory::InvalidResponse));
    assert_eq!(err.attempts[1].message, "la resolución no tiene URI");
    assert_eq!(
        err.to_string(),
        "no se pudo resolver «v1» tras 2 intento(s) (a → b): YouTube: timeout: a no respondió en 1.5s"
    );
}

#[test]
fn single_failing_provider_reports_its_root() {
    let mut fakes = [fake("a", Script::Fail(FailureCategory::Unsupported, "x"))];
    let mut r = resolver_with(&[("a", 100)], fast_policy());
    let err = drive(&mut r, &mut fakes, &yt_track("v1"), true, false).unwrap_err();
    assert_eq!(err.root.message, "x");
    assert_eq!(err.root.category, FailureCategory::Unsupported);
    assert_eq!(err.attempts.len(), 1);
    assert_eq!(fakes[0].calls, 1);
}

#[test]
fn busy_half_open_probe_reports_untried_root() {
    let mut fakes = [fake("a", Script::Serve("de-a"))];
    let mut reg = StreamRegistry::new();
    reg.register_with_circuit(
        ProviderDescriptor::new("a", Source::YouTube),
        CircuitConfig { failure_threshold: 1, cooldown_ms: 30_000 },
    );
    reg.record_failure("a", 0);
    let mut r = StreamResolver::new(reg, MemoryResolutionCache::default(), config(fast_policy()));
    // Another resolution already holds the single half-open probe.
    assert!(r.registry_mut().allow_attempt("a", 1_000_000));
    let err = drive(&mut r, &mut fakes, &yt_track("v1"), true, false).unwrap_err();
    assert_eq!(fakes[0].calls, 0);
    assert_eq!(err.attempts.len(), 1);
    assert_eq!(err.attempts[0].category, None);
    assert_eq!(err.attempts[0].message, "circuito abierto");
    assert_eq!(err.root.category, FailureCategory::ProviderUnavailable);
    assert_eq!(err.root.message, "ningún proveedor pudo ser intentado");
}

#[test]
fn retry_waits_the_policy_backoff() {
    let policy = fast_policy();
    let mut reg = StreamRegistry::new();
    reg.register(ProviderDescriptor::new("a", Source::YouTube));
    let mut r = StreamResolver::new(reg, MemoryResolutionCache::default(), config(policy));
    let track = yt_track("v1");
    let (mut run, step) = r.begin_resolve(&track, 1_000, 0);
    match &step {
        ResolveStep::Call { provider_id, attempt, delay_ms, context } => {
            assert_eq!(provider_id, "a");
            assert_eq!((*attempt, *delay_ms), (0, 0));
            assert_eq!(context.deadline, Some(3_000));
        }
        _ => panic!("expected a call"),
    }
    let step = r.on_outcome(
        &mut run,
        ProviderOutcome::Failed(ResolutionError::new(FailureCategory::Timeout, Source::YouTube, "t")),
        7,
        1_500,
    );
    match step {
        ResolveStep::Call { provider_id, attempt, delay_ms, .. } => {
            assert_eq!(provider_id, "a");
            assert_eq!(attempt, 1);
            assert_eq!(delay_ms, 10, "base 5 ms × 2");
        }
        _ => panic!("expected a retry"),
    }
}

#[test]
fn global_cap_bounds_calls_over_all_providers() {
    let mut fakes = [
        fake("a", Script::Fail(FailureCategory::NetworkFailure, "caída de a")),
        fake("b", Script::Fail(FailureCategory::NetworkFailure, "caída de b")),
        fake("c", Script::Serve("de-c")),
    ];
    let policy = FailurePolicy { max_total_attempts: 3, ..fast_policy() };
    let mut r = resolver_with(&[("a", 100), ("b", 100), ("c", 100)], policy);
    let err = drive(&mut r, &mut fakes, &yt_track("v1"), true, false).unwrap_err();
    assert_eq!(fakes[0].calls, 2, "primer intento + un reintento");
    assert_eq!(fakes[1].calls, 1, "el tope global impide el reintento");
    assert_eq!(fakes[2].calls, 0, "tope global alcanzado: nadie más es llamado");
    assert_eq!(err.attempts.len(), 3);
    assert_eq!(err.root.message, "caída de a");
}

#[test]
fn cap_of_one_allows_a_single_call() {
    let mut fakes = [
        fake("a", Script::Fail(FailureCategory::NetworkFailure, "causa raíz A")),
        fake("b", Script::Serve("de-b")),
    ];
    let policy = FailurePolicy { max_total_attempts: 1, ..fast_policy() };
    let mut r = resolver_with(&[("a", 100), ("b", 100)], policy);
    let err = drive(&mut r, &mut fakes, &yt_track("v1"), true, false).unwrap_err();
    assert_eq!((fakes[0].calls, fakes[1].calls), (1, 0));
    assert_eq!(err.attempts.len(), 1);
    assert_eq!(err.root.category, FailureCategory::NetworkFailure);
    assert!(r.cache_mut().get("v1", 1_787_356_800_000).is_none());
}

#[test]
fn zero_cap_calls_nobody() {
    let mut fakes = [fake("a", Script::Serve("de-a"))];
    let policy = FailurePolicy { max_total_attempts: 0, ..fast_policy() };
    let mut r = resolver_with(&[("a", 100)], policy);
    let err = drive(&mut r, &mut fakes, &yt_track("v1"), true, false).unwrap_err();
    assert_eq!(fakes[0].calls, 0);
    assert!(err.attempts.is_empty());
    assert_eq!(err.root.category, FailureCategory::ProviderUnavailable);
    assert_eq!(err.root.message, "ningún proveedor pudo ser intentado");
}

#[test]
fn refused_provider_is_recorded_and_the_next_one_is_called() {
    let mut fakes = [fake("a", Script::Serve("de-a")), fake("b", Script::Fail(FailureCategory::Unsupported, "no"))];
    let mut reg = StreamRegistry::new();
    reg.register_with_circuit(
        ProviderDescriptor::with_priority("a", Source::YouTube, 200),
        CircuitConfig { failure_threshold: 1, cooldown_ms: 30_000 },
    );
    reg.register(ProviderDescriptor::new("b", Source::YouTube));
    reg.record_failure("a", 0);
    let mut r = StreamResolver::new(reg, MemoryResolutionCache::default(), config(fast_policy()));
    // Another resolution already holds the single half-open probe of "a".
    assert!(r.registry_mut().allow_attempt("a", 1_000_000));
    let err = drive(&mut r, &mut fakes, &yt_track("v1"), true, false).unwrap_err();
    assert_eq!((fakes[0].calls, fakes[1].calls), (0, 1));
    let ids: Vec<&str> = err.attempts.iter().map(|a| a.provider_id.as_str()).collect();
    assert_eq!(ids, vec!["a", "b"]);
    assert_eq!(err.attempts[0].category, None);
    assert_eq!(err.attempts[1].category, Some(FailureCategory::Unsupported));
    assert_eq!(err.root.message, "no");
}
