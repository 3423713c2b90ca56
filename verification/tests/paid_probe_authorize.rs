use std::cell::Cell;
use std::cell::RefCell;
use std::collections::BTreeSet;
use std::collections::VecDeque;
use std::sync::Arc;

use routectl_router::config::AliasValue;
use routectl_router::config::Config;
use routectl_router::config::ModelEntry;
use routectl_router::config::ProviderEntry;
use routectl_router::config::RuntimePolicy;
use routectl_router::metrics::RouterMetrics;
use routectl_router::names::NameTable;
use routectl_router::paid_probe_authorize::AuthorizationStep;
use routectl_router::paid_probe_authorize::PaidProbeAuthorization;
use routectl_router::paid_probe_authorize::PaidProbeOutcome;
use routectl_router::paid_probe_authorize::PaidProbeRefusal;
use routectl_router::paid_probe_authorize::PendingReservation;
use routectl_router::paid_probe_authorize::ReservationReply;
use routectl_router::paid_probe_ledger::PaidProbeLedger;
use routectl_router::paid_probe_ledger::PaidProbeReservation;
use routectl_router::paid_probe_profile::LEGACY_MIN_VIABLE_MAX_TOKENS;
use routectl_router::probe::FieldVerdictKey;
use routectl_router::probe::PaidProbeCandidate;
use routectl_router::probe::ProbeActivation;
use routectl_router::probe::ProbeBoard;
use routectl_router::probe::ProbePayload;
use routectl_router::probe::PROBE_MAX_CONCURRENCY;
use routectl_router::probe::PROBE_QUEUE_DEPTH;
use routectl_router::resolved::CatalogRow;
use routectl_router::resolved::EffectiveRow;
use routectl_router::resolved::ResolvedModel;

const GROUNDED_PATH: &str = "thinking.display";
const PROVIDER: &str = "p1";
const SECOND_PROVIDER: &str = "p2";
const CAP: u32 = 5;

type Router = routectl_router::router::Router<u8, LedgerHandle>;

/// Answers every reservation alike, except for one provider if so told, and
/// remembers what it was asked.
struct CountingLedger {
    calls: Cell<usize>,
    seen: RefCell<Vec<(String, u32)>>,
    answer: PaidProbeReservation,
    overloaded_for: Option<&'static str>,
}

impl CountingLedger {
    fn answering(answer: PaidProbeReservation) -> Arc<Self> {
        Arc::new(CountingLedger {
            calls: Cell::new(0),
            seen: RefCell::new(Vec::new()),
            answer,
            overloaded_for: None,
        })
    }

    fn committed() -> Arc<Self> {
        Self::answering(PaidProbeReservation::Committed { used: 2, cap: CAP })
    }

    fn calls(&self) -> usize {
        self.calls.get()
    }

    fn seen(&self) -> Vec<(String, u32)> {
        self.seen.borrow().clone()
    }
}

#[derive(Clone)]
struct LedgerHandle(Arc<CountingLedger>);

impl PaidProbeLedger for LedgerHandle {
    fn reserve_paid_probe_unit(&mut self, provider: &str, daily_cap: u32) -> PaidProbeReservation {
        let ledger = &self.0;
        ledger.calls.set(ledger.calls.get() + 1);
        ledger.seen.borrow_mut().push((provider.to_string(), daily_cap));
        if ledger.overloaded_for == Some(provider) {
            return PaidProbeReservation::Overloaded;
        }
        ledger.answer
    }
}

fn row(input: Option<f32>, output: Option<f32>, ceiling: Option<u32>) -> EffectiveRow {
    let mut row = CatalogRow::sentinel();
    row.input_cost_per_token = input.map(f32::to_bits);
    row.output_cost_per_token = output.map(f32::to_bits);
    row.max_output_tokens = ceiling;
    EffectiveRow::Present(row)
}

fn fully_priced() -> EffectiveRow {
    row(Some(3.0e-6), Some(1.5e-5), Some(64_000))
}

fn entry(attributable: bool) -> ProviderEntry {
    ProviderEntry {
        kind: "anthropic-api",
        header_extras: NameTable::new(),
        payload_extras: None,
        runtime: RuntimePolicy::default(),
        forwarded_base_url: None,
        attributable,
    }
}

struct Fixture {
    cap: u32,
    effective_row: EffectiveRow,
    attributable: bool,
    resolve_model: bool,
}

impl Default for Fixture {
    fn default() -> Self {
        Fixture {
            cap: CAP,
            effective_row: fully_priced(),
            attributable: true,
            resolve_model: true,
        }
    }
}

impl Fixture {
    fn cap(mut self, cap: u32) -> Self {
        self.cap = cap;
        self
    }

    fn effective_row(mut self, effective_row: EffectiveRow) -> Self {
        self.effective_row = effective_row;
        self
    }

    fn loopback_entry(mut self) -> Self {
        self.attributable = false;
        self
    }

    fn without_resolved_model(mut self) -> Self {
        self.resolve_model = false;
        self
    }

    fn config(&self) -> Config {
        let mut config = Config::empty();
        config.providers.insert(PROVIDER.to_string(), entry(self.attributable));
        config.models.insert(
            "m1".to_string(),
            ModelEntry {
                provider: PROVIDER.to_string(),
                upstream: "sonnet-4-5".to_string(),
                max_output_tokens: None,
            },
        );
        config.aliases.insert("default".to_string(), AliasValue::Single("m1".to_string()));
        config.paid_probe_daily_caps.insert(PROVIDER.to_string(), self.cap);
        config
    }

    fn bare_router(self) -> Router {
        let mut router: Router = Router::new(Arc::new(self.config()), 1);
        if self.resolve_model {
            let mut model = ResolvedModel::direct("m1", PROVIDER, Arc::new(0u8), "sonnet-4-5");
            model.effective_row = self.effective_row;
            let mut models = NameTable::new();
            models.insert("m1".to_string(), Arc::new(model));
            router.install_resolved_models(models);
        }
        router
    }

    fn router_with_ledger(self, ledger: Arc<CountingLedger>) -> Router {
        self.bare_router().with_paid_probe_ledger(LedgerHandle(ledger))
    }

    fn router(self) -> Router {
        self.router_with_ledger(CountingLedger::committed())
    }
}

fn two_lane_router(ledger: Arc<CountingLedger>) -> Router {
    let mut config = Config::empty();
    let mut models = NameTable::new();
    for (nickname, provider_name) in [("m1", PROVIDER), ("m2", SECOND_PROVIDER)] {
        config.providers.insert(provider_name.to_string(), entry(true));
        config.paid_probe_daily_caps.insert(provider_name.to_string(), CAP);
        let mut model = ResolvedModel::direct(nickname, provider_name, Arc::new(0u8), "sonnet-4-5");
        model.effective_row = fully_priced();
        models.insert(nickname.to_string(), Arc::new(model));
    }
    let mut router: Router = Router::new(Arc::new(config), 1);
    router.install_resolved_models(models);
    router.with_paid_probe_ledger(LedgerHandle(ledger))
}

fn lane_key(nickname: &str) -> FieldVerdictKey {
    FieldVerdictKey::new(nickname, GROUNDED_PATH, "anthropic-api")
}

fn key() -> FieldVerdictKey {
    lane_key("m1")
}

fn key_n(n: usize) -> FieldVerdictKey {
    lane_key(&format!("m{n}"))
}

fn payload() -> ProbePayload {
    ProbePayload {
        path: GROUNDED_PATH.to_string(),
        value: "summarized".to_string(),
        client_betas: vec!["client-flag-1".to_string()],
        operator_betas: vec!["operator-flag-1".to_string()],
        claude_code_session: true,
    }
}

fn same_payload(left: &ProbePayload, right: &ProbePayload) -> bool {
    left.path == right.path
        && left.value == right.value
        && left.client_betas == right.client_betas
        && left.operator_betas == right.operator_betas
        && left.claude_code_session == right.claude_code_session
}

fn candidate_at(key: FieldVerdictKey, incarnation: u64) -> PaidProbeCandidate {
    PaidProbeCandidate { key, incarnation, payload: payload() }
}

fn seed_candidate_at(board: &mut ProbeBoard, key: &FieldVerdictKey, incarnation: u64) {
    board.candidates.push_back(candidate_at(key.copy(), incarnation));
}

fn seed_candidate(board: &mut ProbeBoard, router: &Router, key: &FieldVerdictKey) {
    seed_candidate_at(board, key, router.probe_incarnation());
}

fn authorized(outcome: PaidProbeOutcome<u8>) -> PaidProbeAuthorization<u8> {
    match outcome {
        PaidProbeOutcome::Authorized(auth) => *auth,
        PaidProbeOutcome::Refused(why) => panic!("refused: {}", why.as_str()),
    }
}

/// A pass up to the question to the ledger.
fn parked(
    router: &Router,
    board: &mut ProbeBoard,
) -> (PaidProbeCandidate, PendingReservation<u8>) {
    let candidate = router.claim_paid_probe_candidate(board).expect("a candidate waits");
    match router.begin_authorization(board, &candidate) {
        AuthorizationStep::Reserve(pending) => (candidate, pending),
        AuthorizationStep::Refused(why) => panic!("refused: {}", why.as_str()),
    }
}

/// The rest of a pass, once the ledger replied.
fn resume(
    router: &Router,
    board: &mut ProbeBoard,
    parked: (PaidProbeCandidate, PendingReservation<u8>),
    reply: ReservationReply,
) -> PaidProbeOutcome<u8> {
    let (candidate, pending) = parked;
    let outcome = router.settle_authorization(board, pending, reply);
    router.finish_pass(board, candidate, &outcome);
    outcome
}

const COMMIT: ReservationReply =
    ReservationReply::Answered(PaidProbeReservation::Committed { used: 1, cap: CAP });

/// A router to take over from another one.
fn replacement(previous: &Router) -> Router {
    let mut next = Fixture::default().bare_router();
    let mut metrics = RouterMetrics::default();
    next.carry_over_learned_from(previous, &mut metrics);
    next
}

#[test]
fn a_fully_admissible_candidate_authorizes_one_call_and_consumes_the_candidate() {
    let ledger = CountingLedger::committed();
    let mut router = Fixture::default().router_with_ledger(ledger.clone());
    let mut board = ProbeBoard::new();
    seed_candidate(&mut board, &router, &key());

    let auth = authorized(router.authorize_paid_probe(&mut board));

    assert!(auth.key().same_lane(&key()));
    assert_eq!(auth.incarnation(), router.probe_incarnation());
    assert!(same_payload(auth.payload(), &payload()));
    assert_eq!(auth.seat().provider_name, PROVIDER);
    assert_eq!(auth.profile().max_tokens(), LEGACY_MIN_VIABLE_MAX_TOKENS);
    assert_eq!(auth.committed().used(), 2);
    assert_eq!(auth.committed().cap(), CAP);
    assert_eq!(ledger.calls(), 1);
    assert_eq!(ledger.seen(), vec![(PROVIDER.to_string(), CAP)]);
    assert!(board.candidates.is_empty());
    assert_eq!(board.reservations_committed_total, 1);
}

#[test]
fn an_empty_candidate_list_refuses_without_asking_the_ledger() {
    let ledger = CountingLedger::committed();
    let mut router = Fixture::default().router_with_ledger(ledger.clone());
    let mut board = ProbeBoard::new();

    let outcome = router.authorize_paid_probe(&mut board);

    assert_eq!(outcome.refusal(), Some(PaidProbeRefusal::NoCandidate));
    assert_eq!(ledger.calls(), 0);
}

#[test]
fn two_concurrent_claimers_of_one_candidate_produce_exactly_one_reservation() {
    let mut router = Fixture::default().router();
    let mut board = ProbeBoard::new();
    seed_candidate(&mut board, &router, &key());

    let first = parked(&router, &mut board);
    let second = router.authorize_paid_probe(&mut board);
    let first = resume(&router, &mut board, first, COMMIT);

    assert!(matches!(first, PaidProbeOutcome::Authorized(_)));
    assert_eq!(second.refusal(), Some(PaidProbeRefusal::NoCandidate));
    assert_eq!(board.reservations_committed_total, 1);
}

#[test]
fn a_stale_incarnation_refuses_without_asking_the_ledger() {
    let ledger = CountingLedger::committed();
    let mut router = Fixture::default().router_with_ledger(ledger.clone());
    let mut board = ProbeBoard::new();
    seed_candidate_at(&mut board, &key(), router.probe_incarnation() + 1);

    let outcome = router.authorize_paid_probe(&mut board);

    assert_eq!(outcome.refusal(), Some(PaidProbeRefusal::StaleIncarnation));
    assert_eq!(ledger.calls(), 0);
}

#[test]
fn a_live_incarnation_on_the_same_fixture_does_reach_the_ledger() {
    let ledger = CountingLedger::committed();
    let mut router = Fixture::default().router_with_ledger(ledger.clone());
    let mut board = ProbeBoard::new();
    seed_candidate_at(&mut board, &key(), router.probe_incarnation());

    let outcome = router.authorize_paid_probe(&mut board);

    assert!(matches!(outcome, PaidProbeOutcome::Authorized(_)));
    assert_eq!(ledger.calls(), 1);
}

#[test]
fn an_unattributable_entry_refuses_without_asking_the_ledger() {
    let ledger = CountingLedger::committed();
    let mut router = Fixture::default().loopback_entry().router_with_ledger(ledger.clone());
    let mut board = ProbeBoard::new();
    seed_candidate(&mut board, &router, &key());

    let outcome = router.authorize_paid_probe(&mut board);

    assert_eq!(outcome.refusal(), Some(PaidProbeRefusal::Unattributable));
    assert_eq!(ledger.calls(), 0);
}

#[test]
fn an_attributable_entry_on_the_same_fixture_does_reach_the_ledger() {
    let ledger = CountingLedger::committed();
    let mut router = Fixture::default().router_with_ledger(ledger.clone());
    let mut board = ProbeBoard::new();
    seed_candidate(&mut board, &router, &key());

    let outcome = router.authorize_paid_probe(&mut board);

    assert!(matches!(outcome, PaidProbeOutcome::Authorized(_)));
    assert_eq!(ledger.calls(), 1);
}

#[test]
fn an_identity_naming_no_seat_refuses_without_asking_the_ledger() {
    let ledger = CountingLedger::committed();
    let mut router = Fixture::default().without_resolved_model().router_with_ledger(ledger.clone());
    let mut board = ProbeBoard::new();
    seed_candidate(&mut board, &router, &key());

    let outcome = router.authorize_paid_probe(&mut board);

    assert_eq!(outcome.refusal(), Some(PaidProbeRefusal::NoSeat));
    assert_eq!(ledger.calls(), 0);
}

#[test]
fn a_zero_cap_refuses_without_asking_the_ledger() {
    let ledger = CountingLedger::committed();
    let mut router = Fixture::default().cap(0).router_with_ledger(ledger.clone());
    let mut board = ProbeBoard::new();
    seed_candidate(&mut board, &router, &key());

    let outcome = router.authorize_paid_probe(&mut board);

    assert_eq!(outcome.refusal(), Some(PaidProbeRefusal::CapZero));
    assert_eq!(ledger.calls(), 0);
    assert_eq!(router.paid_probe_daily_cap(&key()), 0);
}

#[test]
fn a_nonzero_live_cap_on_the_same_fixture_does_reach_the_ledger() {
    let ledger = CountingLedger::committed();
    let mut router = Fixture::default().cap(1).router_with_ledger(ledger.clone());
    let mut board = ProbeBoard::new();
    seed_candidate(&mut board, &router, &key());

    let outcome = router.authorize_paid_probe(&mut board);

    assert!(matches!(outcome, PaidProbeOutcome::Authorized(_)));
    assert_eq!(ledger.seen(), vec![(PROVIDER.to_string(), 1)]);
}

#[test]
fn every_missing_profile_class_refuses_without_asking_the_ledger() {
    let classes: Vec<(&str, EffectiveRow)> = vec![
        ("missing cell", EffectiveRow::Missing),
        ("disabled cell", EffectiveRow::Disabled),
        ("absent input rate", row(None, Some(1.5e-5), Some(64_000))),
        ("absent output rate", row(Some(3.0e-6), None, Some(64_000))),
        ("zero rate", row(Some(0.0), Some(1.5e-5), Some(64_000))),
        ("non-finite rate", row(Some(f32::NAN), Some(1.5e-5), Some(64_000))),
        ("no output ceiling", row(Some(3.0e-6), Some(1.5e-5), None)),
        (
            "ceiling below the floor",
            row(Some(3.0e-6), Some(1.5e-5), Some(LEGACY_MIN_VIABLE_MAX_TOKENS - 1)),
        ),
    ];
    for (name, cell) in classes {
        let ledger = CountingLedger::committed();
        let mut router = Fixture::default().effective_row(cell).router_with_ledger(ledger.clone());
        let mut board = ProbeBoard::new();
        seed_candidate(&mut board, &router, &key());

        let outcome = router.authorize_paid_probe(&mut board);

        assert_eq!(outcome.refusal(), Some(PaidProbeRefusal::NoProfile), "{name}");
        assert_eq!(ledger.calls(), 0, "{name}");
    }
}

#[test]
fn an_absent_ledger_refuses_closed_and_discards_without_a_trait_call() {
    let mut router = Fixture::default().bare_router();
    let mut board = ProbeBoard::new();
    seed_candidate(&mut board, &router, &key());

    let outcome = router.authorize_paid_probe(&mut board);

    assert_eq!(outcome.refusal(), Some(PaidProbeRefusal::NoLedger));
    assert!(router.paid_probe_ledger().is_none());
    assert!(board.candidates.is_empty());
    assert_eq!(board.in_flight, 0);
}

#[test]
fn an_installed_ledger_answering_unavailable_is_terminal_and_discards() {
    let ledger = CountingLedger::answering(PaidProbeReservation::Unavailable);
    let mut router = Fixture::default().router_with_ledger(ledger.clone());
    let mut board = ProbeBoard::new();
    seed_candidate(&mut board, &router, &key());

    let outcome = router.authorize_paid_probe(&mut board);

    assert_eq!(
        outcome.refusal(),
        Some(PaidProbeRefusal::Accounting(PaidProbeReservation::Unavailable)),
    );
    assert_eq!(ledger.calls(), 1);
    assert!(board.candidates.is_empty());

    let overloaded = CountingLedger::answering(PaidProbeReservation::Overloaded);
    let mut router = Fixture::default().router_with_ledger(overloaded);
    seed_candidate(&mut board, &router, &key());

    let outcome = router.authorize_paid_probe(&mut board);

    assert_eq!(
        outcome.refusal(),
        Some(PaidProbeRefusal::Accounting(PaidProbeReservation::Overloaded)),
    );
    assert_eq!(board.candidates.len(), 1);
}

#[test]
fn each_recoverable_accounting_refusal_requeues_the_candidate_exactly_once() {
    for refusal in [
        PaidProbeReservation::CapExhausted,
        PaidProbeReservation::Overloaded,
        PaidProbeReservation::WriteFailed,
        PaidProbeReservation::MalformedState,
    ] {
        let mut router = Fixture::default().router_with_ledger(CountingLedger::answering(refusal));
        let mut board = ProbeBoard::new();
        seed_candidate(&mut board, &router, &key());

        let outcome = router.authorize_paid_probe(&mut board);

        assert_eq!(outcome.refusal(), Some(PaidProbeRefusal::Accounting(refusal)));
        assert_eq!(board.candidates.len(), 1);
        assert!(board.candidates[0].key.same_lane(&key()));
        assert!(same_payload(&board.candidates[0].payload, &payload()));

        let _second = router.authorize_paid_probe(&mut board);
        assert_eq!(board.candidates.len(), 1);
        assert_eq!(board.in_flight, 0);
    }
}

#[test]
fn every_locally_knowable_refusal_discards_the_candidate() {
    let cases: Vec<(&str, Router)> = vec![
        ("stale incarnation", Fixture::default().router()),
        ("unattributable", Fixture::default().loopback_entry().router()),
        ("no seat", Fixture::default().without_resolved_model().router()),
        ("cap zero", Fixture::default().cap(0).router()),
        ("no profile", Fixture::default().effective_row(EffectiveRow::Missing).router()),
    ];
    for (name, mut router) in cases {
        let mut board = ProbeBoard::new();
        if name == "stale incarnation" {
            seed_candidate_at(&mut board, &key(), router.probe_incarnation() + 1);
        } else {
            seed_candidate(&mut board, &router, &key());
        }

        let outcome = router.authorize_paid_probe(&mut board);

        let refusal = outcome.refusal().expect("each case must refuse");
        assert!(!refusal.requeues(), "{name}");
        assert!(board.candidates.is_empty(), "{name}");
    }
}

#[test]
fn a_requeue_at_the_list_bound_is_refused_and_counted() {
    let router = Fixture::default().router();
    let mut board = ProbeBoard::new();
    for n in 0..PROBE_QUEUE_DEPTH {
        seed_candidate(&mut board, &router, &key_n(n));
    }
    assert_eq!(board.candidates.len(), PROBE_QUEUE_DEPTH);
    assert_eq!(board.capacity_refusals_total, 0);

    router.requeue_paid_probe_candidate(
        &mut board,
        candidate_at(key_n(PROBE_QUEUE_DEPTH + 1), router.probe_incarnation()),
    );

    assert_eq!(board.candidates.len(), PROBE_QUEUE_DEPTH);
    assert_eq!(board.capacity_refusals_total, 1);
}

#[test]
fn a_requeue_of_an_already_present_identity_adds_no_duplicate() {
    let router = Fixture::default().router();
    let mut board = ProbeBoard::new();
    seed_candidate(&mut board, &router, &key());
    let live = router.probe_incarnation();

    router.requeue_paid_probe_candidate(&mut board, candidate_at(key(), live));
    assert_eq!(board.candidates.len(), 1);

    router.requeue_paid_probe_candidate(&mut board, candidate_at(key_n(9), live));
    assert_eq!(board.candidates.len(), 2);
}

#[test]
fn an_authorization_holds_a_paid_slot_that_free_leases_see() {
    let mut router = Fixture::default().router();
    let mut board = ProbeBoard::new();
    seed_candidate(&mut board, &router, &key());

    let auth = authorized(router.authorize_paid_probe(&mut board));
    assert_eq!(board.in_flight, 1);

    board.release_paid_slot(auth.into_slot());
    assert_eq!(board.in_flight, 0);
}

#[test]
fn a_saturated_concurrency_pool_refuses_without_asking_the_ledger() {
    let ledger = CountingLedger::committed();
    let mut router = Fixture::default().router_with_ledger(ledger.clone());
    let mut board = ProbeBoard::new();
    seed_candidate(&mut board, &router, &key());
    let held: Vec<_> = (0..PROBE_MAX_CONCURRENCY)
        .map(|_| board.try_acquire_paid_slot().expect("a slot must be available"))
        .collect();
    assert!(board.try_acquire_paid_slot().is_none());

    let outcome = router.authorize_paid_probe(&mut board);

    assert_eq!(outcome.refusal(), Some(PaidProbeRefusal::NoConcurrencySlot));
    assert_eq!(ledger.calls(), 0);
    assert_eq!(board.candidates.len(), 1);

    for slot in held {
        board.release_paid_slot(slot);
    }
    let outcome = router.authorize_paid_probe(&mut board);
    assert!(matches!(outcome, PaidProbeOutcome::Authorized(_)));
    assert_eq!(ledger.calls(), 1);
}

#[test]
fn a_later_reload_and_cap_lowering_do_not_invalidate_a_committed_authorization() {
    let ledger = CountingLedger::committed();
    let mut router = Fixture::default().router_with_ledger(ledger.clone());
    let mut board = ProbeBoard::new();
    seed_candidate(&mut board, &router, &key());
    let auth = authorized(router.authorize_paid_probe(&mut board));
    let authorized_incarnation = auth.incarnation();

    router.config = Arc::new(Fixture::default().cap(0).config());
    router.publish_probe_incarnation(&mut board);

    assert_eq!(auth.committed().cap(), CAP);
    assert_eq!(auth.incarnation(), authorized_incarnation);
    assert!(same_payload(auth.payload(), &payload()));
    assert_eq!(ledger.calls(), 1);

    seed_candidate(&mut board, &router, &key());
    let fresh = router.authorize_paid_probe(&mut board);
    assert_eq!(fresh.refusal(), Some(PaidProbeRefusal::CapZero));
    assert_eq!(ledger.calls(), 1);
}

#[test]
fn shutdown_drops_every_candidate_without_refunding_a_committed_unit() {
    let ledger = CountingLedger::committed();
    let mut router = Fixture::default().router_with_ledger(ledger.clone());
    let mut board = ProbeBoard::new();
    seed_candidate(&mut board, &router, &key());
    let auth = authorized(router.authorize_paid_probe(&mut board));
    seed_candidate(&mut board, &router, &key_n(7));

    router.shutdown_probe_work(&mut board);

    assert!(board.candidates.is_empty());
    assert_eq!(auth.committed().used(), 2);
    board.release_paid_slot(auth.into_slot());
    assert_eq!(board.in_flight, 0);
    assert_eq!(ledger.calls(), 1);
    assert_eq!(board.reservations_committed_total, 1);
}

#[test]
fn every_refusal_has_a_distinct_log_token_and_a_stated_requeue_decision() {
    let all = vec![
        PaidProbeRefusal::NoCandidate,
        PaidProbeRefusal::StaleIncarnation,
        PaidProbeRefusal::NoSeat,
        PaidProbeRefusal::Unattributable,
        PaidProbeRefusal::CapZero,
        PaidProbeRefusal::NoProfile,
        PaidProbeRefusal::NoConcurrencySlot,
        PaidProbeRefusal::NoLedger,
        PaidProbeRefusal::Superseded,
        PaidProbeRefusal::ReservationTimeout,
        PaidProbeRefusal::Accounting(PaidProbeReservation::CapExhausted),
        PaidProbeRefusal::Accounting(PaidProbeReservation::Overloaded),
        PaidProbeRefusal::Accounting(PaidProbeReservation::WriteFailed),
        PaidProbeRefusal::Accounting(PaidProbeReservation::MalformedState),
        PaidProbeRefusal::Accounting(PaidProbeReservation::Unavailable),
    ];
    let own: Vec<&str> = all
        .iter()
        .filter(|r| !matches!(r, PaidProbeRefusal::Accounting(_)))
        .map(PaidProbeRefusal::as_str)
        .collect();
    let distinct: BTreeSet<&str> = own.iter().copied().collect();
    assert_eq!(distinct.len(), own.len(), "every refusal needs its own token: {own:?}");
    assert_eq!(own.len(), 10, "one token per non-accounting variant: {own:?}");

    let requeued: Vec<&str> =
        all.iter().filter(|r| r.requeues()).map(PaidProbeRefusal::as_str).collect();
    assert_eq!(
        requeued,
        vec![
            "no_concurrency_slot",
            "cap_exhausted",
            "overloaded",
            "write_failed",
            "malformed_state",
        ],
    );
    assert!(!PaidProbeRefusal::Accounting(PaidProbeReservation::Unavailable).requeues());
    assert!(!PaidProbeRefusal::NoLedger.requeues());
    assert!(!PaidProbeRefusal::Superseded.requeues());
    assert!(!PaidProbeRefusal::ReservationTimeout.requeues());
}

#[test]
fn no_refusal_permits_a_paid_call_through_the_reservation_predicate() {
    for reservation in [
        PaidProbeReservation::CapExhausted,
        PaidProbeReservation::MalformedState,
        PaidProbeReservation::WriteFailed,
        PaidProbeReservation::Overloaded,
        PaidProbeReservation::Unavailable,
    ] {
        assert!(!reservation.permits_paid_call(), "{} must permit nothing", reservation.as_str());
    }
    assert!(
        PaidProbeReservation::Committed { used: 1, cap: 1 }.permits_paid_call(),
        "and only a commit does",
    );
}

#[test]
fn a_publication_before_ledger_admission_costs_zero_ledger_calls() {
    let ledger = CountingLedger::committed();
    let mut router = Fixture::default().router_with_ledger(ledger.clone());
    let mut board = ProbeBoard::new();
    router.publish_probe_incarnation(&mut board);
    seed_candidate(&mut board, &router, &key());
    let mut next = replacement(&router);
    next.publish_probe_incarnation(&mut board);
    assert!(!router.is_current_publication(&board));
    seed_candidate_at(&mut board, &key(), router.probe_incarnation());

    let outcome = router.authorize_paid_probe(&mut board);

    assert_eq!(outcome.refusal(), Some(PaidProbeRefusal::Superseded));
    assert_eq!(ledger.calls(), 0);
    assert!(board.candidates.is_empty());
    assert_eq!(board.in_flight, 0);
}

#[test]
fn a_commit_that_wins_before_publication_yields_a_valid_authorization() {
    let ledger = CountingLedger::committed();
    let mut router = Fixture::default().router_with_ledger(ledger.clone());
    let mut board = ProbeBoard::new();
    seed_candidate(&mut board, &router, &key());
    let auth = authorized(router.authorize_paid_probe(&mut board));
    let authorized_at = auth.incarnation();
    assert_eq!(ledger.calls(), 1);

    router.config = Arc::new(Fixture::default().cap(0).config());
    router.publish_probe_incarnation(&mut board);

    assert_eq!(auth.incarnation(), authorized_at);
    assert_eq!(auth.committed().cap(), CAP);
    assert_eq!(ledger.calls(), 1);
    seed_candidate(&mut board, &router, &key());
    let fresh = router.authorize_paid_probe(&mut board);
    assert_eq!(fresh.refusal(), Some(PaidProbeRefusal::CapZero));
}

#[test]
fn a_publication_during_the_await_supersedes_the_consumed_reservation() {
    let router = Fixture::default().router();
    let mut board = ProbeBoard::new();
    seed_candidate(&mut board, &router, &key());
    let waiting = parked(&router, &mut board);

    let mut next = replacement(&router);
    next.publish_probe_incarnation(&mut board);
    assert!(!router.is_current_publication(&board));
    let outcome = resume(&router, &mut board, waiting, COMMIT);

    assert_eq!(outcome.refusal(), Some(PaidProbeRefusal::Superseded));
    assert_eq!(board.reservations_committed_total, 1);
    assert!(board.candidates.is_empty());
    assert_eq!(board.in_flight, 0);
}

#[test]
fn a_shutdown_before_ledger_admission_costs_zero_ledger_calls() {
    let ledger = CountingLedger::committed();
    let mut router = Fixture::default().router_with_ledger(ledger.clone());
    let mut board = ProbeBoard::new();
    seed_candidate(&mut board, &router, &key());
    let stamped = router.probe_incarnation();

    router.shutdown_probe_work(&mut board);

    assert!(!router.is_current_publication(&board));
    assert_eq!(router.probe_incarnation(), stamped);
    seed_candidate_at(&mut board, &key(), stamped);

    let outcome = router.authorize_paid_probe(&mut board);

    assert_eq!(outcome.refusal(), Some(PaidProbeRefusal::Superseded));
    assert_eq!(ledger.calls(), 0);
    assert!(board.candidates.is_empty());
}

#[test]
fn a_shutdown_during_the_await_supersedes_and_never_requeues() {
    for reply in [
        COMMIT,
        ReservationReply::Answered(PaidProbeReservation::Overloaded),
        ReservationReply::TimedOut,
    ] {
        let router = Fixture::default().router();
        let mut board = ProbeBoard::new();
        seed_candidate(&mut board, &router, &key());
        let waiting = parked(&router, &mut board);

        router.shutdown_probe_work(&mut board);
        let outcome = resume(&router, &mut board, waiting, reply);

        if reply == COMMIT {
            assert_eq!(outcome.refusal(), Some(PaidProbeRefusal::Superseded));
        }
        assert!(board.candidates.is_empty());
        assert_eq!(board.in_flight, 0);
    }
}

#[test]
fn a_reservation_timeout_is_terminal_and_releases_its_slot() {
    let router = Fixture::default().router();
    let mut board = ProbeBoard::new();
    seed_candidate(&mut board, &router, &key());
    let waiting = parked(&router, &mut board);
    assert_eq!(waiting.1.provider_name(), PROVIDER);
    assert_eq!(waiting.1.daily_cap(), CAP);
    assert_eq!(board.in_flight, 1);

    let outcome = resume(&router, &mut board, waiting, ReservationReply::TimedOut);

    assert_eq!(outcome.refusal(), Some(PaidProbeRefusal::ReservationTimeout));
    assert!(board.candidates.is_empty());
    assert_eq!(board.in_flight, 0);
    assert_eq!(board.reservations_committed_total, 0);
}

#[test]
fn a_requeue_from_a_superseded_router_is_refused() {
    let router = Fixture::default().router();
    let mut board = ProbeBoard::new();
    let stamped = router.probe_incarnation();
    let mut next = replacement(&router);
    next.publish_probe_incarnation(&mut board);
    assert!(!router.is_current_publication(&board));

    router.requeue_paid_probe_candidate(&mut board, candidate_at(key(), stamped));

    assert!(board.candidates.is_empty());
}

#[test]
fn a_requeue_after_shutdown_is_refused() {
    let router = Fixture::default().router();
    let mut board = ProbeBoard::new();
    let stamped = router.probe_incarnation();
    router.shutdown_probe_work(&mut board);

    router.requeue_paid_probe_candidate(&mut board, candidate_at(key(), stamped));

    assert!(board.candidates.is_empty());
}

#[test]
fn a_requeue_at_a_retired_incarnation_is_refused_as_defense_in_depth() {
    let router = Fixture::default().router();
    let mut board = ProbeBoard::new();
    let live = router.probe_incarnation();
    assert!(router.is_current_publication(&board));

    router.requeue_paid_probe_candidate(&mut board, candidate_at(key(), live - 1));
    assert!(board.candidates.is_empty());

    router.requeue_paid_probe_candidate(&mut board, candidate_at(key(), live));
    assert_eq!(board.candidates.len(), 1);
}

#[test]
fn the_shared_ticket_is_the_publication_authority_across_routers() {
    let mut board = ProbeBoard::new();
    let mut previous = Fixture::default().router();
    assert!(previous.is_current_publication(&board));

    let mut next = replacement(&previous);
    next.publish_probe_incarnation(&mut board);

    assert!(next.is_current_publication(&board));
    assert!(!previous.is_current_publication(&board));
    previous.publish_probe_incarnation(&mut board);
    assert!(previous.is_current_publication(&board));
    assert!(!next.is_current_publication(&board));
}

#[test]
fn the_legacy_publication_surface_is_callable_synchronously() {
    let mut board = ProbeBoard::new();
    let mut router = Fixture::default().router();
    router.activate_probe_lane(&mut board, &key());
    assert_eq!(board.lanes.len(), 1, "premise");

    let retired: usize = router.publish_probe_incarnation(&mut board);
    assert_eq!(retired, 1, "the sync stamp must retire the outgoing work");

    router.activate_probe_lane(&mut board, &key());
    let cancelled: usize = router.shutdown_probe_work(&mut board);
    assert_eq!(cancelled, 1, "the sync shutdown must cancel queued work and return the count");
    assert_eq!(board.lanes.len(), 0);
}

#[test]
fn no_candidate_can_reserve_after_a_shutdown_beat_a_reload() {
    let ledger = CountingLedger::committed();
    let mut router = Fixture::default().router_with_ledger(ledger.clone());
    let mut board = ProbeBoard::new();
    let stamped = router.probe_incarnation();
    router.shutdown_probe_work(&mut board);

    assert_eq!(router.publish_probe_incarnation(&mut board), 0);
    seed_candidate_at(&mut board, &key(), stamped);

    let outcome = router.authorize_paid_probe(&mut board);

    assert_eq!(outcome.refusal(), Some(PaidProbeRefusal::Superseded));
    assert_eq!(ledger.calls(), 0);
}

#[test]
fn a_publication_that_wins_first_stores_and_a_later_shutdown_is_still_terminal() {
    let mut board = ProbeBoard::new();
    let mut router = Fixture::default().router();
    router.activate_probe_lane(&mut board, &key());
    assert_eq!(board.lanes.len(), 1, "premise");
    let before = router.probe_incarnation();

    let retired = router.publish_probe_incarnation(&mut board);

    assert!(router.probe_incarnation() > before, "the router was published");
    assert_eq!(retired, 1, "and the outgoing incarnation's work was retired");
    assert!(router.is_current_publication(&board));

    let stamped = router.probe_incarnation();
    router.shutdown_probe_work(&mut board);

    assert!(
        !router.is_current_publication(&board),
        "shutdown supersedes even a router that published a moment earlier",
    );
    assert_eq!(
        router.probe_incarnation(),
        stamped,
        "without restamping it -- the terminal generation is unstamped",
    );
    assert_eq!(router.publish_probe_incarnation(&mut board), 0);
    assert_eq!(router.probe_incarnation(), stamped, "no publication may follow a shutdown");
}

#[test]
fn the_plain_publication_is_also_a_no_op_after_shutdown() {
    let mut board = ProbeBoard::new();
    let mut router = Fixture::default().router();
    let stamped = router.probe_incarnation();
    router.shutdown_probe_work(&mut board);
    let ticket = board.ticket;

    let retired = router.publish_probe_incarnation(&mut board);

    assert_eq!(retired, 0);
    assert_eq!(router.probe_incarnation(), stamped);
    assert_eq!(board.ticket, ticket);
}

#[test]
fn a_requeue_on_a_live_router_still_succeeds_under_the_same_lock_order() {
    let router = Fixture::default().router();
    let mut board = ProbeBoard::new();
    let live = router.probe_incarnation();

    router.requeue_paid_probe_candidate(&mut board, candidate_at(key(), live));

    assert_eq!(board.candidates.len(), 1, "a live requeue must still land");
    assert!(board.candidates[0].key.same_lane(&key()));
    assert!(same_payload(&board.candidates[0].payload, &payload()));
}

#[test]
fn shutdown_refuses_activation_that_races_it_on_an_unchanged_generation() {
    let router = Fixture::default().router();
    let mut board = ProbeBoard::new();
    assert_eq!(router.activate_probe_lane(&mut board, &key()), ProbeActivation::Queued);
    assert_eq!(router.activate_probe_lane(&mut board, &key()), ProbeActivation::AlreadyQueued);
    assert_eq!(board.lanes.len(), 1);
    let stamped = router.probe_incarnation();

    router.shutdown_probe_work(&mut board);

    assert_eq!(router.probe_incarnation(), stamped);
    assert_eq!(board.lanes.len(), 0, "the sweep happened");
    assert_eq!(router.activate_probe_lane(&mut board, &key()), ProbeActivation::Retired);
    assert_eq!(board.lanes.len(), 0, "and nothing may be queued after the sweep");
}

#[test]
fn a_recording_after_shutdown_records_nothing() {
    let router = Fixture::default().router();
    let mut board = ProbeBoard::new();
    let live = router.probe_incarnation();

    router.record_paid_probe_candidate(&mut board, candidate_at(key(), live));
    assert_eq!(board.candidates.len(), 1);
    board.candidates = VecDeque::new();

    router.shutdown_probe_work(&mut board);
    router.record_paid_probe_candidate(&mut board, candidate_at(key(), live));

    assert!(board.candidates.is_empty());
}

#[test]
fn a_repeatedly_refused_candidate_does_not_starve_the_queue_behind_it() {
    let ledger = CountingLedger::answering(PaidProbeReservation::Overloaded);
    let mut router = two_lane_router(ledger.clone());
    let mut board = ProbeBoard::new();
    seed_candidate(&mut board, &router, &lane_key("m1"));
    seed_candidate(&mut board, &router, &lane_key("m2"));

    for _ in 0..4 {
        let outcome = router.authorize_paid_probe(&mut board);
        assert_eq!(
            outcome.refusal(),
            Some(PaidProbeRefusal::Accounting(PaidProbeReservation::Overloaded)),
        );
        assert_eq!(board.candidates.len(), 2);
    }

    let asked: Vec<String> = ledger.seen().into_iter().map(|(provider, _)| provider).collect();
    assert_eq!(asked, vec![PROVIDER, SECOND_PROVIDER, PROVIDER, SECOND_PROVIDER]);
}

#[test]
fn a_healthy_candidate_is_reached_on_the_pass_after_a_refused_one() {
    let ledger = Arc::new(CountingLedger {
        calls: Cell::new(0),
        seen: RefCell::new(Vec::new()),
        answer: PaidProbeReservation::Committed { used: 1, cap: CAP },
        overloaded_for: Some(PROVIDER),
    });
    let mut router = two_lane_router(ledger.clone());
    let mut board = ProbeBoard::new();
    seed_candidate(&mut board, &router, &lane_key("m1"));
    seed_candidate(&mut board, &router, &lane_key("m2"));

    let refused = router.authorize_paid_probe(&mut board);
    assert_eq!(
        refused.refusal(),
        Some(PaidProbeRefusal::Accounting(PaidProbeReservation::Overloaded)),
    );

    let auth = authorized(router.authorize_paid_probe(&mut board));
    assert!(auth.key().same_lane(&lane_key("m2")));
    assert_eq!(auth.seat().provider_name, SECOND_PROVIDER);
    let asked: Vec<String> = ledger.seen().into_iter().map(|(provider, _)| provider).collect();
    assert_eq!(
        asked,
        vec![PROVIDER, SECOND_PROVIDER],
        "the accounting layer saw each lane exactly once, in rotation order",
    );
}

#[test]
fn a_reservation_settles_for_the_candidate_that_was_checked() {
    let ledger = CountingLedger::committed();
    let router = two_lane_router(ledger);
    let mut board = ProbeBoard::new();
    seed_candidate(&mut board, &router, &lane_key("m1"));
    seed_candidate(&mut board, &router, &lane_key("m2"));
    let first = parked(&router, &mut board);
    let second = parked(&router, &mut board);
    assert_eq!(board.in_flight, 2);

    let auth = authorized(resume(&router, &mut board, second, COMMIT));
    assert!(auth.key().same_lane(&lane_key("m2")));
    assert_eq!(auth.seat().provider_name, SECOND_PROVIDER);
    let auth = authorized(resume(&router, &mut board, first, COMMIT));
    assert!(auth.key().same_lane(&lane_key("m1")));
    assert_eq!(auth.seat().provider_name, PROVIDER);
}

#[test]
fn an_abandoned_reservation_gives_its_slot_back() {
    let router = Fixture::default().router();
    let mut board = ProbeBoard::new();
    seed_candidate(&mut board, &router, &key());
    let (_candidate, pending) = parked(&router, &mut board);
    assert_eq!(board.in_flight, 1);

    board.release_paid_slot(pending.abandon());

    assert_eq!(board.in_flight, 0);
    assert!(board.candidates.is_empty());
    assert_eq!(board.reservations_committed_total, 0);
}

#[test]
fn the_scheduler_incarnation_advances_on_every_publication() {
    let mut board = ProbeBoard::new();
    let mut router: Router = Router::new(Arc::new(Config::empty()), 1);
    let first = router.probe_incarnation();

    router.publish_probe_incarnation(&mut board);
    let second = router.probe_incarnation();
    router.publish_probe_incarnation(&mut board);
    let third = router.probe_incarnation();

    assert!(second > first, "publication must advance the incarnation");
    assert!(third > second, "every publication advances it, not just one");
}

#[test]
fn a_reload_publication_retires_the_previous_incarnation_work() {
    let mut board = ProbeBoard::new();
    let previous: Router = Router::new(Arc::new(Config::empty()), 1);
    previous.activate_probe_lane(&mut board, &key());
    assert_eq!(board.lanes.len(), 1);

    let mut next: Router = Router::new(Arc::new(Config::empty()), 2);
    let mut metrics = RouterMetrics::default();
    next.carry_over_learned_from(&previous, &mut metrics);
    let cancelled = next.publish_probe_incarnation(&mut board);

    assert_eq!(cancelled, 1, "reload publication retires the old work");
    assert_eq!(board.lanes.len(), 0);
    assert_eq!(previous.activate_probe_lane(&mut board, &key()), ProbeActivation::Retired);
    assert_eq!(board.lanes.len(), 0);
}

#[test]
fn shutdown_cancels_all_probe_work() {
    let mut board = ProbeBoard::new();
    let router: Router = Router::new(Arc::new(Config::empty()), 1);
    for n in 0..3 {
        router.activate_probe_lane(&mut board, &key_n(n));
    }

    let cancelled = router.shutdown_probe_work(&mut board);

    assert_eq!(cancelled, 3);
    assert_eq!(board.lanes.len(), 0);
    assert_eq!(router.shutdown_probe_work(&mut board), 0, "a second shutdown does nothing");
}

#[test]
fn a_waiting_candidate_comes_to_its_turn_after_those_before_it() {
    let ledger = CountingLedger::answering(PaidProbeReservation::CapExhausted);
    let mut router = Fixture::default().router_with_ledger(ledger);
    let mut board = ProbeBoard::new();
    for n in [1, 20, 30, 40] {
        seed_candidate(&mut board, &router, &key_n(n));
    }
    for expected in ["m1", "m20", "m30", "m40"] {
        assert_eq!(board.candidates[0].key.state_key, expected);
        let _ = router.authorize_paid_probe(&mut board);
    }
    assert_eq!(board.candidates.len(), 1, "only the lane with a seat was put back");
    assert_eq!(board.candidates[0].key.state_key, "m1");
}

const OWN_SENTINEL: &str = "own-secret-beta-2026-01-01";
const OTHER_SENTINEL: &str = "other-lane-beta-2026-01-01";

fn payload_with_beta(beta: &str) -> ProbePayload {
    let mut payload = payload();
    payload.client_betas = vec![beta.to_string()];
    payload.operator_betas = Vec::new();
    payload
}

#[test]
fn neither_debug_rendering_prints_any_request_content() {
    let mut router = Fixture::default().router();
    let mut board = ProbeBoard::new();
    let incarnation = router.probe_incarnation();
    board.candidates.push_back(PaidProbeCandidate {
        key: key(),
        incarnation,
        payload: payload_with_beta(OWN_SENTINEL),
    });
    board.candidates.push_back(PaidProbeCandidate {
        key: key_n(5),
        incarnation,
        payload: payload_with_beta(OTHER_SENTINEL),
    });
    let auth = authorized(router.authorize_paid_probe(&mut board));
    assert_eq!(auth.payload().client_betas, vec![OWN_SENTINEL.to_string()]);

    let rendered = format!("{:?}", auth.redacted());

    for withheld in [OWN_SENTINEL, OTHER_SENTINEL, PROVIDER, "summarized"] {
        assert!(!rendered.contains(withheld), "leaked {withheld}: {rendered}");
    }
    assert!(rendered.contains("committed_used"), "{rendered}");
    assert!(rendered.contains("<elided>"), "{rendered}");
    assert_eq!(auth.redacted().committed_used, 2);
    assert_eq!(auth.redacted().committed_cap, CAP);
    assert_eq!(auth.redacted().max_tokens, LEGACY_MIN_VIABLE_MAX_TOKENS);
    assert_eq!(auth.redacted().incarnation, incarnation);
}

#[test]
fn the_paid_slots_debug_prints_no_lane_from_the_scheduler() {
    let router = Fixture::default().router();
    let mut board = ProbeBoard::new();
    for n in 0..3 {
        let identity = lane_key(&format!("lane-{n}"));
        assert_eq!(
            router.activate_probe_lane(&mut board, &identity),
            ProbeActivation::Queued,
            "premise: lane {n} must be in the table",
        );
        board.candidates.push_back(PaidProbeCandidate {
            key: identity,
            incarnation: router.probe_incarnation(),
            payload: payload_with_beta(OTHER_SENTINEL),
        });
    }
    let slot = board.try_acquire_paid_slot().expect("a slot is available");

    let rendered = format!("{slot:?}");

    assert!(
        !rendered.contains(OTHER_SENTINEL),
        "the slot's Debug leaked another lane's captured beta context: {rendered}",
    );
    assert!(!rendered.contains("lane-0"), "nor another lane's identity: {rendered}");
    assert!(!rendered.contains("summarized"), "nor any probed field value: {rendered}");
    assert!(rendered.contains("PaidProbeSlot"), "it must still identify itself: {rendered}");
}
