use std::sync::Arc;

use routectl_router::config::AliasValue;
use routectl_router::config::Config;
use routectl_router::config::ModelEntry;
use routectl_router::config::PoolEntry;
use routectl_router::config::ProviderEntry;
use routectl_router::config::RuntimePolicy;
use routectl_router::config::SeatSelection;
use routectl_router::metrics::FailurePhase;
use routectl_router::metrics::PoolOmissionReason;
use routectl_router::metrics::QuotaDecision;
use routectl_router::metrics::RouterMetrics;
use routectl_router::names::NameTable;
use routectl_router::reload::LearnedCarryOver;
use routectl_router::reload::StickyPins;
use routectl_router::resolved::CatalogRow;
use routectl_router::resolved::EffectiveRow;
use routectl_router::resolved::ResolvedModel;
use routectl_router::resolved::SeatTarget;
use routectl_router::router::parse_alias_pattern;
use routectl_router::router::rejected_alias_keys;
use routectl_router::router::AliasPattern;
use routectl_router::router::CatalogOverlay;
use routectl_router::router::PoolOmission;
use routectl_router::router::PoolReport;
use routectl_router::router::StateSlot;
use routectl_router::router::CATALOG_VERSION;

type Router = routectl_router::router::Router<&'static str, u8>;

fn limited(rpm: u32) -> RuntimePolicy {
    RuntimePolicy { rpm_limit: Some(rpm), circuit_failures: None }
}

fn entry(kind: &'static str, runtime: RuntimePolicy) -> ProviderEntry {
    ProviderEntry {
        kind,
        header_extras: NameTable::new(),
        payload_extras: None,
        runtime,
        forwarded_base_url: None,
        attributable: true,
    }
}

fn config(pool: SeatSelection) -> Config {
    let mut config = Config::empty();
    config.providers.insert("p1".to_string(), entry("anthropic-api", limited(10)));
    config.providers.insert("a".to_string(), entry("openai-compat", limited(20)));
    config.providers.insert("b".to_string(), entry("openai-compat", limited(30)));
    config.pools.insert(
        "pool".to_string(),
        PoolEntry { members: vec!["a".to_string(), "b".to_string()], seat_selection: pool },
    );
    config.models.insert(
        "capped".to_string(),
        ModelEntry {
            provider: "p1".to_string(),
            upstream: "wire".to_string(),
            max_output_tokens: Some(7),
        },
    );
    config
}

fn seat(member: &'static str) -> SeatTarget<&'static str> {
    SeatTarget {
        provider_name: member.to_string(),
        provider: Arc::new(member),
        quota_seat: Some(format!("account-{member}")),
    }
}

fn pooled(nickname: &str, pool: &str, members: &[&'static str]) -> ResolvedModel<&'static str> {
    let mut model = ResolvedModel::direct(nickname, pool, Arc::new("lead"), "wire");
    model.seats = Some(members.iter().map(|m| seat(m)).collect());
    model
}

fn with_models(router: &mut Router, models: Vec<ResolvedModel<&'static str>>) -> Vec<String> {
    let mut table = NameTable::new();
    for model in models {
        table.insert(model.nickname.clone(), Arc::new(model));
    }
    router.install_resolved_models(table)
}

fn slot(router: &Router, key: &str) -> Option<StateSlot> {
    router.state.get(key).copied()
}

fn pins(entries: &[(&str, &str)]) -> StickyPins {
    StickyPins { pins: entries.iter().map(|(s, m)| (s.to_string(), m.to_string())).collect() }
}

#[test]
fn alias_keys_read_as_names_or_prefixes() {
    let kind = |key: &str| match parse_alias_pattern(key) {
        AliasPattern::Exact => "exact".to_string(),
        AliasPattern::Prefix(prefix) => format!("prefix {prefix}"),
        AliasPattern::Invalid => "invalid".to_string(),
    };
    assert_eq!(kind("gpt"), "exact");
    assert_eq!(kind(""), "exact");
    assert_eq!(kind("gpt-*"), "prefix gpt-");
    assert_eq!(kind("\u{e9}*"), "prefix \u{e9}");
    assert_eq!(kind("*"), "invalid");
    assert_eq!(kind("**"), "invalid");
    assert_eq!(kind("a*b"), "invalid");
    assert_eq!(kind("a*b*"), "invalid");
}

#[test]
fn a_new_router_has_one_runtime_gate_per_entry_and_its_own_stores() {
    let mut config = config(SeatSelection::FillFirst);
    config.aliases.insert("z-*".to_string(), AliasValue::Single("z".to_string()));
    config.aliases.insert("exact".to_string(), AliasValue::Single("e".to_string()));
    config.aliases.insert(
        "a-*".to_string(),
        AliasValue::Chain(vec!["x".to_string(), "y".to_string()]),
    );
    config.aliases.insert("bad*key".to_string(), AliasValue::Single("b".to_string()));
    let router: Router = Router::new(Arc::new(config), 7);

    assert_eq!(router.state.len(), 3);
    assert_eq!(slot(&router, "p1"), Some(StateSlot { origin: 7, policy: limited(10) }));
    assert_eq!(slot(&router, "b"), Some(StateSlot { origin: 7, policy: limited(30) }));
    let prefixes: Vec<&str> = router.alias_globs.iter().map(|g| g.prefix.as_str()).collect();
    assert_eq!(prefixes, vec!["a-", "z-"]);
    assert!(matches!(&router.alias_globs[0].value, AliasValue::Chain(t) if t.len() == 2));
    assert!(matches!(&router.alias_globs[1].value, AliasValue::Single(t) if t == "z"));
    assert_eq!(rejected_alias_keys(&router.config), vec!["bad*key"]);
    assert!(rejected_alias_keys(&Config::empty()).is_empty());
    assert_eq!(router.stores.quota, 7);
    assert_eq!(router.stores.sticky_pins, 7);
    assert_eq!(router.catalog_version(), CATALOG_VERSION);
    assert_eq!(router.overlay_revision(), 0);
    assert!(router.catalog_overlay().cells.is_empty());
    assert!(router.providers.is_empty());
    assert!(router.pool_reports().is_empty());
    assert!(!router.has_forwarded_provider());
}

#[test]
fn a_forwarded_entry_is_noticed_when_the_router_is_built() {
    let mut config = config(SeatSelection::FillFirst);
    let mut forwarded = entry("anthropic-api", limited(1));
    forwarded.forwarded_base_url = Some("https://api.example".to_string());
    config.providers.insert("fwd".to_string(), forwarded);
    let router: Router = Router::new(Arc::new(config), 1);

    assert!(router.has_forwarded_provider());
    assert!(router.config.is_forwarded("fwd"));
    assert!(!router.config.is_forwarded("p1"));
    assert!(!router.config.is_forwarded("gone"));
}

#[test]
fn kinds_come_from_the_entry_or_the_lead_member() {
    let config = config(SeatSelection::RoundRobin);

    assert_eq!(config.provider_entry_kind("p1"), Some("anthropic-api"));
    assert_eq!(config.provider_entry_kind("pool"), None);
    assert_eq!(config.provider_kind_for_target("p1"), "anthropic-api");
    assert_eq!(config.provider_kind_for_target("pool"), "openai-compat");
    assert_eq!(config.provider_kind_for_target("gone"), "");
    assert!(config.is_round_robin("pool"));
    assert!(!config.is_round_robin("p1"));
    assert_eq!(config.runtime_policy("p1"), limited(10));
    assert_eq!(config.runtime_policy("gone"), RuntimePolicy::default());
}

#[test]
fn installing_models_makes_what_is_missing_and_leaves_what_stands() {
    let mut router: Router = Router::new(Arc::new(config(SeatSelection::RoundRobin)), 3);
    router.register("p1".to_string(), Arc::new("registered"));
    router.register("extra".to_string(), Arc::new("extra"));
    let mut direct = ResolvedModel::direct("m1", "p1", Arc::new("from model"), "wire");
    direct.quota_seat = Some("account-m1".to_string());

    let accounts = with_models(&mut router, vec![direct, pooled("alpha", "pool", &["a", "b"])]);

    assert_eq!(accounts, vec!["account-a", "account-b", "account-m1"]);
    assert_eq!(router.admit_quota_seats(), accounts);
    assert_eq!(**router.providers.get("p1").unwrap(), "registered");
    assert_eq!(**router.providers.get("pool").unwrap(), "lead");
    assert_eq!(slot(&router, "alpha#a"), Some(StateSlot { origin: 3, policy: limited(20) }));
    assert_eq!(slot(&router, "alpha#b"), Some(StateSlot { origin: 3, policy: limited(30) }));
    assert_eq!(slot(&router, "m1"), Some(StateSlot { origin: 3, policy: limited(10) }));
    assert_eq!(
        slot(&router, "alpha"),
        Some(StateSlot { origin: 3, policy: RuntimePolicy::default() }),
    );
    assert_eq!(
        slot(&router, "extra"),
        Some(StateSlot { origin: 3, policy: RuntimePolicy::default() }),
    );
    assert_eq!(router.round_robin.get("pool"), Some(&3));
    assert!(router.knows_nickname("alpha"));
    assert!(!router.knows_nickname("pool"));
    assert_eq!(router.resolve_nickname("m1").unwrap().upstream, "wire");
    assert!(router.resolve_nickname("gone").is_none());
}

#[test]
fn only_rotating_pools_have_a_cursor() {
    for selection in [SeatSelection::FillFirst, SeatSelection::StickyLeastLoaded] {
        let mut router: Router = Router::new(Arc::new(config(selection)), 3);
        with_models(&mut router, vec![pooled("alpha", "pool", &["a"])]);
        assert!(router.round_robin.is_empty());
    }
}

#[test]
fn the_catalog_fills_the_ceilings_that_the_configuration_leaves_open() {
    let mut router: Router = Router::new(Arc::new(config(SeatSelection::FillFirst)), 1);
    let row = |ceiling: Option<u32>| {
        let mut row = CatalogRow::sentinel();
        row.max_output_tokens = ceiling;
        EffectiveRow::Present(row)
    };
    let mut models = Vec::new();
    for (nickname, cell) in [
        ("capped", row(Some(100))),
        ("open", row(Some(200))),
        ("zero", row(Some(0))),
        ("silent", row(None)),
        ("missing", EffectiveRow::Missing),
        ("off", EffectiveRow::Disabled),
    ] {
        let mut model = ResolvedModel::direct(nickname, "p1", Arc::new("p"), "wire");
        model.effective_row = cell;
        models.push(model);
    }
    with_models(&mut router, models);

    assert_eq!(router.catalog_filled_output_ceilings(), vec![("open".to_string(), 200)]);
    assert_eq!(router.resolve_nickname("capped").unwrap().output_ceiling_tokens(), Some(100));
    assert_eq!(router.resolve_nickname("zero").unwrap().output_ceiling_tokens(), None);
}

#[test]
fn an_overlay_comes_with_its_revision() {
    let mut router: Router = Router::new(Arc::new(Config::empty()), 1);
    let mut cells = NameTable::new();
    cells.insert("m1".to_string(), EffectiveRow::Disabled);

    router.install_catalog_overlay(Arc::new(CatalogOverlay { revision: 9, cells }));

    assert_eq!(router.overlay_revision(), 9);
    assert_eq!(router.catalog_overlay().cells.get("m1"), Some(&EffectiveRow::Disabled));
}

#[test]
fn a_reload_keeps_the_gates_of_surviving_keys_alone() {
    let mut previous: Router = Router::new(Arc::new(config(SeatSelection::FillFirst)), 1);
    previous.register("gone".to_string(), Arc::new("gone"));
    let mut next_config = Config::empty();
    next_config.providers.insert("p1".to_string(), entry("anthropic-api", limited(99)));
    next_config.providers.insert("new".to_string(), entry("anthropic-api", limited(5)));
    let mut next: Router = Router::new(Arc::new(next_config), 2);

    next.carry_over_runtime_state_from(&previous);

    assert_eq!(next.state.len(), 2);
    assert_eq!(slot(&next, "p1"), Some(StateSlot { origin: 1, policy: limited(10) }));
    assert_eq!(slot(&next, "new"), Some(StateSlot { origin: 2, policy: limited(5) }));
}

#[test]
fn a_reload_shares_each_store_by_its_own_carry_over() {
    let previous: Router = Router::new(Arc::new(Config::empty()), 1);
    let mut next: Router = Router::new(Arc::new(Config::empty()), 2);

    next.carry_over_sticky_from(&previous);
    assert_eq!(next.stores.sticky_pins, 1);
    assert_eq!(next.stores.k_session_store, 2);
    next.carry_over_k_store_from(&previous);
    assert_eq!((next.stores.k_session_store, next.stores.k_estimator), (1, 1));
    next.carry_over_prefix_epochs_from(&previous);
    assert_eq!((next.stores.prefix_epochs, next.stores.rewrite_latch), (1, 1));
    next.carry_over_metrics_from(&previous);
    assert_eq!(next.stores.metrics, 1);
    assert!(next.carry_over_quota_from(&previous).is_empty());
    assert_eq!(next.stores.quota, 1);
    assert_eq!(next.stores.probe_board, 2);
    let mut metrics = RouterMetrics::default();
    next.carry_over_learned_from(&previous, &mut metrics);
    assert_eq!(next.stores.probe_board, 1);
}

#[test]
fn pins_of_a_retired_member_move_to_the_first_survivor() {
    let mut previous: Router = Router::new(Arc::new(config(SeatSelection::RoundRobin)), 1);
    with_models(
        &mut previous,
        vec![pooled("alpha", "pool", &["a", "b", "c"]), pooled("beta", "closing", &["x"])],
    );
    let mut next: Router = Router::new(Arc::new(config(SeatSelection::RoundRobin)), 2);
    with_models(&mut next, vec![pooled("alpha", "pool", &["b", "d"])]);
    let mut held = pins(&[("s1", "a"), ("s2", "b"), ("s3", "c"), ("s4", "x"), ("s5", "a")]);
    let mut metrics = RouterMetrics::default();

    assert_eq!(previous.pool_membership().get("pool").unwrap(), &vec!["a", "b", "c"]);
    let survivors = next.retired_member_survivors(&previous);
    assert_eq!(survivors.len(), 2);
    let out = next.carry_over_pool_state_from(&previous, &mut held, &mut metrics);

    assert_eq!(
        held.pins,
        pins(&[("s1", "b"), ("s2", "b"), ("s3", "b"), ("s4", "x"), ("s5", "b")]).pins,
    );
    assert_eq!((out.repicked_pins, out.retired_members), (3, 2));
    assert_eq!(metrics.pool_totals().removed_pin_repick, 3);
    assert_eq!(next.round_robin.get("pool"), Some(&1), "the cursor goes on");
}

#[test]
fn a_pool_that_lost_every_member_keeps_its_pins() {
    let mut previous: Router = Router::new(Arc::new(config(SeatSelection::FillFirst)), 1);
    with_models(&mut previous, vec![pooled("alpha", "pool", &["a"])]);
    let mut next: Router = Router::new(Arc::new(config(SeatSelection::FillFirst)), 2);
    with_models(&mut next, vec![pooled("alpha", "pool", &[])]);
    let mut held = pins(&[("s1", "a")]);
    let mut metrics = RouterMetrics::default();

    let out = next.carry_over_pool_state_from(&previous, &mut held, &mut metrics);

    assert_eq!(held.pins, pins(&[("s1", "a")]).pins);
    assert_eq!((out.repicked_pins, out.retired_members), (0, 0));
    assert_eq!(metrics.pool_totals().removed_pin_repick, 0);
}

#[test]
fn a_member_that_left_two_pools_follows_the_later_one() {
    let mut previous: Router = Router::new(Arc::new(Config::empty()), 1);
    with_models(
        &mut previous,
        vec![pooled("m1", "early", &["a", "e"]), pooled("m2", "late", &["a", "l"])],
    );
    let mut next: Router = Router::new(Arc::new(Config::empty()), 2);
    with_models(&mut next, vec![pooled("m1", "early", &["e"]), pooled("m2", "late", &["l"])]);

    let survivors = next.retired_member_survivors(&previous);

    assert_eq!(survivors.get("a").map(String::as_str), Some("l"));
    let mut held = pins(&[("s1", "a"), ("s2", "z")]);
    assert_eq!(held.repick_members(&survivors), 1);
    assert_eq!(held.pins, pins(&[("s1", "l"), ("s2", "z")]).pins);
}

#[test]
fn what_was_learned_survives_only_an_unchanged_catalog() {
    let previous: Router = Router::new(Arc::new(Config::empty()), 1);
    let mut metrics = RouterMetrics::default();

    let mut same: Router = Router::new(Arc::new(Config::empty()), 2);
    let out = same.carry_over_learned_from(&previous, &mut metrics);
    assert_eq!(out, LearnedCarryOver::Imported);
    assert_eq!(metrics.invalidations_total(), 0);

    let mut overlaid: Router = Router::new(Arc::new(Config::empty()), 2);
    overlaid.install_catalog_overlay(Arc::new(CatalogOverlay {
        revision: 1,
        cells: NameTable::new(),
    }));
    let out = overlaid.carry_over_learned_from(&previous, &mut metrics);
    assert_eq!(
        out,
        LearnedCarryOver::Invalidated { catalog_changed: false, overlay_changed: true },
    );
    overlaid.overlay_revision = 0;
    overlaid.catalog_version = CATALOG_VERSION + 1;
    let out = overlaid.carry_over_learned_from(&previous, &mut metrics);
    assert_eq!(
        out,
        LearnedCarryOver::Invalidated { catalog_changed: true, overlay_changed: false },
    );
    assert_eq!(metrics.invalidations_total(), 2);
}

#[test]
fn pool_reports_are_kept_and_their_omissions_counted() {
    let mut router: Router = Router::new(Arc::new(Config::empty()), 1);
    let mut metrics = RouterMetrics::default();
    let omission = |reason| PoolOmission { member: "a".to_string(), reason };
    let reports = vec![
        PoolReport {
            pool: "one".to_string(),
            omissions: vec![
                omission(PoolOmissionReason::CredentialMissing),
                omission(PoolOmissionReason::CredentialMissing),
                omission(PoolOmissionReason::CredentialUnreadable),
            ],
        },
        PoolReport {
            pool: "two".to_string(),
            omissions: vec![
                omission(PoolOmissionReason::CredentialInvalid),
                omission(PoolOmissionReason::ProviderInitFailed),
            ],
        },
    ];

    router.install_pool_reports(&mut metrics, reports);

    let totals = metrics.pool_totals();
    assert_eq!(totals.omitted_credential_missing, 2);
    assert_eq!(totals.omitted_credential_unreadable, 1);
    assert_eq!(totals.omitted_credential_invalid, 1);
    assert_eq!(totals.omitted_provider_init_failed, 1);
    assert_eq!(router.pool_reports().len(), 2);
    router.note_pool_removed_pin_repick(&mut metrics);
    assert_eq!(metrics.pool_totals().removed_pin_repick, 1);
}

#[test]
fn every_counter_moves_alone_and_shows_in_the_snapshot() {
    let router: Router = Router::new(Arc::new(Config::empty()), 1);
    let bumps: Vec<(&str, fn(&mut RouterMetrics))> = vec![
        ("rc_unknown_failure_classifications_total", |m| {
            m.incr_unknown_failure_classification()
        }),
        ("rc_feature_unsupported_total", |m| m.incr_feature_unsupported()),
        ("rc_probe_attempts_total", |m| m.incr_probe_attempts()),
        ("rc_probe_failures_total", |m| m.incr_probe_failures()),
        ("rc_invalidations_total", |m| m.incr_invalidations()),
        ("rc_d17_tail_total", |m| m.incr_d17_tail()),
        ("rc_strip_total", |m| m.incr_strip()),
        ("rc_strip_rollback_total", |m| m.incr_strip_rollback()),
        ("rc_strip_strict_rejected_total", |m| m.incr_strip_strict_rejected()),
        ("rc_mask_suppressed_total", |m| m.incr_mask_suppressed()),
        ("rc_f2_same_chain_suppressed_total", |m| m.incr_f2_same_chain_suppressed()),
        ("rc_feature_naming_unmatched_total", |m| m.incr_feature_naming_unmatched()),
        ("rc_verified_working_total", |m| m.incr_verified_working()),
        ("rc_f3_suspect_total", |m| m.incr_f3_suspect()),
        ("rc_window_gate_skips_total", |m| assert_eq!(m.incr_window_gate_skip(), 1)),
        ("rc_context_window_overflow_total", |m| m.incr_context_window_overflow()),
        ("rc_quota_placement_below_cap_total", |m| {
            m.incr_quota_placement(QuotaDecision::BelowCapTier);
        }),
        ("rc_quota_placement_all_capped_total", |m| {
            m.incr_quota_placement(QuotaDecision::AllCappedMostRemaining);
        }),
        ("rc_quota_placement_mixed_unknown_total", |m| {
            m.incr_quota_placement(QuotaDecision::MixedUnknownFallback);
        }),
        ("rc_quota_placement_all_unknown_total", |m| {
            m.incr_quota_placement(QuotaDecision::AllUnknownFallback);
        }),
        ("rc_pool_dispatch_total", |m| m.incr_pool_dispatch()),
        ("rc_pool_degraded_dispatch_total", |m| m.incr_pool_degraded_dispatch()),
        ("rc_pool_unavailable_total", |m| m.incr_pool_unavailable()),
        ("rc_pool_member_omitted_credential_missing_total", |m| {
            m.incr_pool_member_omitted(PoolOmissionReason::CredentialMissing)
        }),
        ("rc_pool_member_omitted_credential_unreadable_total", |m| {
            m.incr_pool_member_omitted(PoolOmissionReason::CredentialUnreadable)
        }),
        ("rc_pool_member_omitted_credential_invalid_total", |m| {
            m.incr_pool_member_omitted(PoolOmissionReason::CredentialInvalid)
        }),
        ("rc_pool_member_omitted_provider_init_failed_total", |m| {
            m.incr_pool_member_omitted(PoolOmissionReason::ProviderInitFailed)
        }),
        ("rc_pool_removed_pin_repick_total", |m| m.incr_pool_removed_pin_repick()),
        ("rc_bedrock_validation_unmatched_total", |m| m.incr_bedrock_validation_unmatched()),
    ];
    for (field, bump) in bumps {
        let mut metrics = RouterMetrics::default();
        bump(&mut metrics);
        for (name, value) in router.log_metrics_snapshot(&metrics, 0) {
            assert_eq!(value, if name == field { 1 } else { 0 }, "{name} after {field}");
        }
    }
}

#[test]
fn the_snapshot_lists_its_fields_in_order() {
    let metrics = RouterMetrics::default();

    let fields = metrics.log_snapshot(17);

    assert_eq!(fields.len(), 33);
    assert_eq!(fields[0], ("rc_unknown_failure_classifications_total", 0));
    assert_eq!(fields[23], ("rc_quota_refused_by_admission_total", 17));
    assert_eq!(fields[32], ("rc_bedrock_validation_unmatched_total", 0));
}

#[test]
fn learned_negatives_are_counted_in_all_and_by_phase() {
    let mut metrics = RouterMetrics::default();
    for phase in [FailurePhase::F1, FailurePhase::F2, FailurePhase::F2, FailurePhase::F3] {
        metrics.incr_learned_negatives(phase);
    }

    assert_eq!(metrics.learned_negatives_total(), 4);
    assert_eq!(metrics.learned_negatives_f1_total(), 1);
    assert_eq!(metrics.learned_negatives_f2_total(), 2);
}

#[test]
fn a_dormant_placement_counts_nothing_and_counters_wrap() {
    let mut metrics = RouterMetrics::default();
    let before = metrics;

    let totals = metrics.incr_quota_placement(QuotaDecision::Dormant);

    assert_eq!(metrics, before);
    assert_eq!(totals, metrics.quota_placement_totals());
    metrics.strip_total = u64::MAX;
    metrics.incr_strip();
    assert_eq!(metrics.strip_total(), 0);
}
