use std::sync::Arc;

use routectl_router::config::AliasValue;
use routectl_router::config::Config;
use routectl_router::config::PoolEntry;
use routectl_router::config::ProviderEntry;
use routectl_router::config::RuntimePolicy;
use routectl_router::config::SeatSelection;
use routectl_router::metrics::RouterMetrics;
use routectl_router::names::NameTable;
use routectl_router::opening_lookup::AliasError;
use routectl_router::opening_lookup::AliasResolution;
use routectl_router::opening_lookup::OpeningLane;
use routectl_router::probe::ProbeBoard;
use routectl_router::resolved::ResolvedModel;
use routectl_router::resolved::SeatTarget;
use routectl_router::samples::cohort_of;

type Router = routectl_router::router::Router<u8, u8>;

const OPENAI_KIND: &str = "openai-compat";
const ANTHROPIC_KIND: &str = "anthropic-api";

fn entry(kind: &'static str, forwarded: bool) -> ProviderEntry {
    ProviderEntry {
        kind,
        header_extras: NameTable::new(),
        payload_extras: None,
        runtime: RuntimePolicy::default(),
        forwarded_base_url: if forwarded { Some("https://api.example".to_string()) } else { None },
        attributable: true,
    }
}

fn standalone_config(calibration_enabled: bool) -> Config {
    let mut config = Config::empty();
    config.providers.insert("compat".to_string(), entry(OPENAI_KIND, false));
    config.providers.insert("anthropic".to_string(), entry(ANTHROPIC_KIND, false));
    config.aliases.insert(
        "smart".to_string(),
        AliasValue::Chain(vec!["opus".to_string(), "glm".to_string()]),
    );
    config.aliases.insert("default".to_string(), AliasValue::Single("glm".to_string()));
    config.calibration_enabled = calibration_enabled;
    config
}

fn install_standalone(config: Config) -> Router {
    let mut router: Router = Router::new(Arc::new(config), 1);
    let mut models = NameTable::new();
    models.insert(
        "glm".to_string(),
        Arc::new(ResolvedModel::direct("glm", "compat", Arc::new(0u8), "glm-4.6")),
    );
    models.insert(
        "opus".to_string(),
        Arc::new(ResolvedModel::direct("opus", "anthropic", Arc::new(0u8), "opus-4-7")),
    );
    router.install_resolved_models(models);
    router
}

fn standalone_router() -> Router {
    install_standalone(standalone_config(true))
}

fn pooled_router(selection: SeatSelection) -> Router {
    let members = ["seat-a", "seat-b"];
    let mut config = Config::empty();
    for member in members {
        config.providers.insert(member.to_string(), entry(ANTHROPIC_KIND, false));
    }
    config.pools.insert(
        "pool".to_string(),
        PoolEntry {
            members: members.iter().map(|m| m.to_string()).collect(),
            seat_selection: selection,
        },
    );
    let mut model = ResolvedModel::direct("opus", "pool", Arc::new(0u8), "opus-4-7");
    model.seats = Some(
        members
            .iter()
            .map(|member| SeatTarget {
                provider_name: member.to_string(),
                provider: Arc::new(0u8),
                quota_seat: None,
            })
            .collect(),
    );
    let mut router: Router = Router::new(Arc::new(config), 1);
    let mut models = NameTable::new();
    models.insert("opus".to_string(), Arc::new(model));
    router.install_resolved_models(models);
    router
}

/// What an alias of the configuration stands for.
fn resolve(router: &Router, alias: &str) -> AliasResolution<u8> {
    match router.config.aliases.get(alias) {
        None => Ok(None),
        Some(AliasValue::Single(target)) => {
            Ok(Some(router.resolve_nickname(target).into_iter().collect()))
        }
        Some(AliasValue::Chain(targets)) => {
            Ok(Some(targets.iter().filter_map(|t| router.resolve_nickname(t)).collect()))
        }
    }
}

fn opening_lane(router: &Router, model: &str) -> Option<OpeningLane> {
    router.opening_lane(model, &resolve(router, model), &resolve(router, "default"))
}

#[test]
fn publication_generation_is_stable_within_one_publication() {
    let router = standalone_router();

    let first = router.publication_generation();
    let second = router.publication_generation();

    assert_eq!(first, second);
}

#[test]
fn a_config_only_republication_advances_the_generation_but_not_the_registry() {
    let mut board = ProbeBoard::new();
    let before = standalone_router();
    let mut after = standalone_router();
    after.carry_over_learned_from(&before, &mut RouterMetrics::default());
    let outgoing = before.publication_generation();

    after.publish_probe_incarnation(&mut board);

    assert!(after.publication_generation() > outgoing);
    assert_eq!(before.publication_generation(), outgoing);
    assert_eq!(after.catalog_version(), before.catalog_version());
    assert_eq!(after.overlay_revision(), before.overlay_revision());
}

#[test]
fn every_republication_draws_a_strictly_greater_generation() {
    let mut board = ProbeBoard::new();
    let first = standalone_router();
    let mut second = standalone_router();
    second.carry_over_learned_from(&first, &mut RouterMetrics::default());
    second.publish_probe_incarnation(&mut board);
    let mut third = standalone_router();
    third.carry_over_learned_from(&second, &mut RouterMetrics::default());

    third.publish_probe_incarnation(&mut board);

    assert!(first.publication_generation() < second.publication_generation());
    assert!(second.publication_generation() < third.publication_generation());
}

#[test]
fn an_alias_resolves_to_its_head_target_lane() {
    let router = standalone_router();

    let lane = opening_lane(&router, "smart").expect("alias resolves");

    assert_eq!(lane.provider_kind, ANTHROPIC_KIND);
    assert_eq!(lane.nickname, "opus");
    assert_eq!(lane.upstream_model, "opus-4-7");
    assert_eq!(lane.generation, router.publication_generation());
}

#[test]
fn a_direct_nickname_resolves_to_its_own_lane() {
    let router = standalone_router();

    let lane = opening_lane(&router, "glm").expect("nickname resolves");

    assert_eq!(lane.provider_kind, OPENAI_KIND);
    assert_eq!(lane.nickname, "glm");
    assert_eq!(lane.upstream_model, "glm-4.6");
}

#[test]
fn an_unmatched_model_falls_to_the_default_catch_all_like_dispatch() {
    let router = standalone_router();

    let lane = opening_lane(&router, "some-unlisted-model").expect("default resolves");

    assert_eq!(lane.nickname, "glm");
}

#[test]
fn an_unresolvable_model_has_no_lane() {
    let router = standalone_router();

    assert!(router.opening_lane("some-unlisted-model", &Ok(None), &Ok(None)).is_none());
}

#[test]
fn an_alias_that_cannot_be_resolved_has_no_lane() {
    let router = standalone_router();
    let chain = resolve(&router, "default");
    let nested = Err(AliasError::RecursionTooDeep);

    assert!(router.opening_lane("glm", &nested, &chain).is_none());
    assert!(router.opening_lane("unlisted", &Ok(None), &nested).is_none());
    assert!(router.opening_lane("unlisted", &Ok(Some(Vec::new())), &chain).is_none());
}

#[test]
fn a_head_target_without_a_provider_kind_has_no_lane() {
    let mut router: Router = Router::new(Arc::new(Config::empty()), 1);
    let mut models = NameTable::new();
    models.insert(
        "orphan".to_string(),
        Arc::new(ResolvedModel::direct("orphan", "missing", Arc::new(0u8), "wire-id")),
    );
    router.install_resolved_models(models);

    assert!(opening_lane(&router, "orphan").is_none());
}

#[test]
fn a_forwarded_credential_head_reports_the_requested_model_as_its_wire_id() {
    let mut config = Config::empty();
    config.providers.insert("fwd".to_string(), entry(ANTHROPIC_KIND, true));
    let mut router: Router = Router::new(Arc::new(config), 1);
    let mut models = NameTable::new();
    models.insert(
        "opus".to_string(),
        Arc::new(ResolvedModel::direct("opus", "fwd", Arc::new(0u8), "opus-4-7")),
    );
    router.install_resolved_models(models);

    let lane = opening_lane(&router, "opus").expect("resolves");

    assert_eq!(lane.upstream_model, "opus");
}

#[test]
fn a_pooled_head_names_the_model_lane_not_a_seat() {
    let router = pooled_router(SeatSelection::FillFirst);

    let lane = opening_lane(&router, "opus").expect("pooled model resolves");

    assert_eq!(lane.provider_kind, ANTHROPIC_KIND);
    assert_eq!(lane.nickname, "opus");
    assert_eq!(lane.upstream_model, "opus-4-7");
}

#[test]
fn a_pool_mixing_forwarded_and_own_seats_has_no_lane() {
    let mut router = pooled_router(SeatSelection::FillFirst);
    let mut config = Config::empty();
    config.providers.insert("seat-a".to_string(), entry(ANTHROPIC_KIND, false));
    config.providers.insert("seat-b".to_string(), entry(ANTHROPIC_KIND, true));
    config.pools.insert(
        "pool".to_string(),
        PoolEntry {
            members: vec!["seat-a".to_string(), "seat-b".to_string()],
            seat_selection: SeatSelection::FillFirst,
        },
    );
    router.config = Arc::new(config);
    let head = router.resolve_nickname("opus").unwrap();

    assert_eq!(router.head_uses_forwarded_credential(&head), None);
    assert!(opening_lane(&router, "opus").is_none());
}

#[test]
fn a_pool_of_forwarded_seats_is_forwarded() {
    let mut router = pooled_router(SeatSelection::FillFirst);
    let head = router.resolve_nickname("opus").unwrap();
    assert_eq!(router.head_uses_forwarded_credential(&head), Some(false));
    let mut config = Config::empty();
    for member in ["seat-a", "seat-b"] {
        config.providers.insert(member.to_string(), entry(ANTHROPIC_KIND, true));
    }
    router.config = Arc::new(config);

    assert_eq!(router.head_uses_forwarded_credential(&head), Some(true));
}

#[test]
fn served_requests_leave_their_samples() {
    let router = standalone_router();

    assert!(router.record_k_sample(None, OPENAI_KIND, "glm", 7, 1).is_none());
    let read = router.record_k_sample(Some("s"), OPENAI_KIND, "glm", 7, 99).unwrap();
    assert_eq!((read.session_key.as_str(), read.provider_kind.as_str()), ("s", OPENAI_KIND));
    assert_eq!((read.model.as_str(), read.observed_reuse), ("glm", true));
    assert_eq!(read.observed_at, 99);
    assert!(!router.record_k_sample(Some("s"), OPENAI_KIND, "glm", 0, 1).unwrap().observed_reuse);

    let sample = router
        .record_calibration_sample(Some(OPENAI_KIND), Some("glm"), Some("s"), 1_000, 2_000, 98)
        .unwrap();
    assert_eq!(sample.lane.provider_kind, OPENAI_KIND);
    assert_eq!(sample.lane.nickname, "glm");
    assert_eq!((sample.estimated_tokens, sample.prompt_tokens), (1_000, 2_000));
    assert_eq!((sample.cohort, sample.observed_at), (cohort_of(Some("s")), 98));
    let none = None;
    assert!(router.record_calibration_sample(None, Some("glm"), none, 1, 2, 3).is_none());
    assert!(router.record_calibration_sample(Some(OPENAI_KIND), None, none, 1, 2, 3).is_none());
}

#[test]
fn callers_have_cohorts_of_their_own_and_keyless_ones_share_one() {
    let router = standalone_router();
    let cohort = |caller: Option<&str>| {
        router
            .record_calibration_sample(Some(OPENAI_KIND), Some("glm"), caller, 1, 2, 3)
            .unwrap()
            .cohort
    };

    assert_eq!(cohort(Some("caller-0")), cohort(Some("caller-0")));
    assert_ne!(cohort(Some("caller-0")), cohort(Some("caller-1")));
    assert_eq!(cohort(None), cohort(None));
    assert_ne!(cohort(None), cohort(Some("")));
    assert_eq!(cohort_of(Some("foobar")), Some(0x85944171f73967e8));
    assert_eq!(cohort_of(None), None);
}

#[test]
fn the_kill_switch_takes_the_lane_away_and_keeps_the_evidence() {
    let on = standalone_router();
    let off = install_standalone(standalone_config(false));

    let lane = on.calibration_lane_for(OPENAI_KIND, "glm").unwrap();
    assert_eq!((lane.provider_kind.as_str(), lane.nickname.as_str()), (OPENAI_KIND, "glm"));
    assert!(off.calibration_lane_for(OPENAI_KIND, "glm").is_none());
    assert!(off.record_calibration_sample(Some(OPENAI_KIND), Some("glm"), None, 1, 2, 3).is_some());
    assert_eq!(
        off.calibration_lanes(&vec![lane]),
        vec![(OPENAI_KIND.to_string(), "glm".to_string())],
    );
}

#[test]
fn a_reload_keeps_the_lanes_of_known_models() {
    let previous = standalone_router();
    let mut next = standalone_router();
    next.serial = 2;
    let mut lanes = vec![
        previous.calibration_lane_for(OPENAI_KIND, "gone").unwrap(),
        previous.calibration_lane_for(OPENAI_KIND, "glm").unwrap(),
        previous.calibration_lane_for(ANTHROPIC_KIND, "opus").unwrap(),
        previous.calibration_lane_for(ANTHROPIC_KIND, "glm").unwrap(),
    ];

    next.carry_over_calibration_from(&previous, &mut lanes);

    assert_eq!(
        next.calibration_lanes(&lanes),
        vec![
            (OPENAI_KIND.to_string(), "glm".to_string()),
            (ANTHROPIC_KIND.to_string(), "opus".to_string()),
            (ANTHROPIC_KIND.to_string(), "glm".to_string()),
        ],
    );
    assert_eq!(next.stores.calibration, previous.stores.calibration);
}

#[test]
fn a_warm_start_replays_the_rows_of_known_models() {
    let router = standalone_router();
    let row = |nickname: &str, estimate: u64| {
        router
            .record_calibration_sample(
                Some(OPENAI_KIND),
                Some(nickname),
                Some("caller"),
                estimate,
                2 * estimate,
                10 + estimate,
            )
            .unwrap()
    };
    let rows = vec![row("glm", 1), row("renamed", 2), row("opus", 3), row("glm", 4)];

    let kept = router.rebuild_calibration_from_ledger(&rows);

    let seen: Vec<(&str, u64, u64)> = kept
        .iter()
        .map(|s| (s.lane.nickname.as_str(), s.estimated_tokens, s.prompt_tokens))
        .collect();
    assert_eq!(seen, vec![("glm", 1, 2), ("opus", 3, 6), ("glm", 4, 8)]);
    let times: Vec<u64> = kept.iter().map(|s| s.observed_at).collect();
    assert_eq!(times, vec![11, 13, 14]);
    assert!(kept.iter().all(|s| s.cohort == cohort_of(Some("caller"))));
}
