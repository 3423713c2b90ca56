use std::cell::Cell;
use std::collections::BTreeSet;
use std::sync::Arc;

use routectl_router::config::Config;
use routectl_router::config::ProviderEntry;
use routectl_router::config::RuntimePolicy;
use routectl_router::names::NameTable;
use routectl_router::paid_probe_authorize::PaidProbeAuthorization;
use routectl_router::paid_probe_authorize::PaidProbeOutcome;
use routectl_router::paid_probe_authorize::PaidProbeRefusal;
use routectl_router::paid_probe_dial::build_probe_request;
use routectl_router::paid_probe_dial::read_answer;
use routectl_router::paid_probe_dial::DialAnswer;
use routectl_router::paid_probe_dial::DialInFlight;
use routectl_router::paid_probe_dial::DialStep;
use routectl_router::paid_probe_dial::PaidProbeDialOutcome;
use routectl_router::paid_probe_dial::PaidProbePass;
use routectl_router::paid_probe_dial::PassStep;
use routectl_router::paid_probe_dial::FREE_PROBE_MAX_TOKENS;
use routectl_router::paid_probe_dial::PROBE_TURN;
use routectl_router::paid_probe_ledger::PaidProbeLedger;
use routectl_router::paid_probe_ledger::PaidProbeReservation;
use routectl_router::paid_probe_profile::ADAPTIVE_MIN_VIABLE_MAX_TOKENS;
use routectl_router::paid_probe_profile::LEGACY_MIN_VIABLE_MAX_TOKENS;
use routectl_router::probe::FieldVerdictKey;
use routectl_router::probe::PaidProbeCandidate;
use routectl_router::probe::ProbeBoard;
use routectl_router::probe::ProbePayload;
use routectl_router::probe_failure_class::paid_failure_for_class;
use routectl_router::probe_failure_class::FailureClass;
use routectl_router::probe_failure_class::PaidProbeFailure;
use routectl_router::request::ChatRequest;
use routectl_router::resolved::CatalogRow;
use routectl_router::resolved::EffectiveRow;
use routectl_router::resolved::ResolvedModel;

const UPSTREAM: &str = "sonnet-4-5";
const CLIENT_BETA: &str = "client-flag-1";
const OPERATOR_BETA: &str = "operator-flag-1";

struct Ledger {
    calls: Cell<usize>,
}

struct LedgerHandle(Arc<Ledger>);

impl PaidProbeLedger for LedgerHandle {
    fn reserve_paid_probe_unit(&mut self, _: &str, cap: u32) -> PaidProbeReservation {
        self.0.calls.set(self.0.calls.get() + 1);
        PaidProbeReservation::Committed { used: 3, cap }
    }
}

type Router = routectl_router::router::Router<u8, LedgerHandle>;

struct Dial {
    router: Router,
    ledger: Arc<Ledger>,
    board: ProbeBoard,
}

fn config(cap: u32) -> Config {
    let mut config = Config::empty();
    config.providers.insert(
        "p1".to_string(),
        ProviderEntry {
            kind: "anthropic-api",
            header_extras: NameTable::new(),
            payload_extras: None,
            runtime: RuntimePolicy::default(),
            forwarded_base_url: None,
            attributable: true,
        },
    );
    config.paid_probe_daily_caps.insert("p1".to_string(), cap);
    config
}

impl Dial {
    fn new(adaptive: bool) -> Dial {
        let config = config(5);
        let mut row = CatalogRow::sentinel();
        row.input_cost_per_token = Some(3.0e-6f32.to_bits());
        row.output_cost_per_token = Some(1.5e-5f32.to_bits());
        row.max_output_tokens = Some(64_000);
        let mut model = ResolvedModel::direct("m1", "p1", Arc::new(0u8), UPSTREAM);
        model.effective_row = EffectiveRow::Present(row);
        model.supports_adaptive_thinking = adaptive;
        let mut models = NameTable::new();
        models.insert("m1".to_string(), Arc::new(model));
        let ledger = Arc::new(Ledger { calls: Cell::new(0) });
        let mut router: Router = Router::new(Arc::new(config), 1);
        router.install_resolved_models(models);
        let router = router.with_paid_probe_ledger(LedgerHandle(ledger.clone()));
        let mut board = ProbeBoard::new();
        board.candidates.push_back(PaidProbeCandidate {
            key: FieldVerdictKey::new("m1", "thinking.display", "anthropic-api"),
            incarnation: router.probe_incarnation(),
            payload: payload(),
        });
        Dial { router, ledger, board }
    }

    fn authorize(&mut self) -> PaidProbeAuthorization<u8> {
        match self.router.authorize_paid_probe(&mut self.board) {
            PaidProbeOutcome::Authorized(auth) => *auth,
            PaidProbeOutcome::Refused(why) => panic!("refused: {}", why.as_str()),
        }
    }

    fn seed(&mut self) {
        self.board.candidates.push_back(PaidProbeCandidate {
            key: FieldVerdictKey::new("m1", "thinking.display", "anthropic-api"),
            incarnation: self.router.probe_incarnation(),
            payload: payload(),
        });
    }

    fn call(&mut self, auth: PaidProbeAuthorization<u8>) -> (ChatRequest, DialInFlight<u8>) {
        match self.router.begin_dial(&mut self.board, auth, false) {
            DialStep::Call(body, in_flight) => (body, in_flight),
            DialStep::Deferred(_) => panic!("nothing declined the call"),
        }
    }

    fn body(&mut self) -> ChatRequest {
        let auth = self.authorize();
        self.call(auth).0
    }

    fn pass(&mut self, answer: &DialAnswer) -> PaidProbePass {
        let outcome = self.router.authorize_paid_probe(&mut self.board);
        match self.router.begin_paid_pass(&mut self.board, outcome, false) {
            PassStep::Over(pass, _) => pass,
            PassStep::Call(_, in_flight) => {
                self.router.finish_paid_pass(&mut self.board, in_flight, answer).0
            }
        }
    }
}

fn payload() -> ProbePayload {
    ProbePayload {
        path: "thinking.display".to_string(),
        value: "summarized".to_string(),
        client_betas: vec![CLIENT_BETA.to_string()],
        operator_betas: vec![OPERATOR_BETA.to_string()],
        claude_code_session: true,
    }
}

#[test]
fn the_paid_body_carries_the_exact_seat_and_the_retained_payload() {
    let body = Dial::new(false).body();

    assert_eq!(body.model, UPSTREAM);
    assert_eq!(
        body.routectl_internal.anthropic_thinking_display.as_deref(),
        Some("summarized"),
    );
    assert!(body.reasoning);
    assert_eq!(body.messages, vec![PROBE_TURN]);
}

#[test]
fn the_paid_body_keeps_each_beta_source_on_its_own_carrier() {
    let body = Dial::new(false).body();

    assert_eq!(body.anthropic_beta, vec![CLIENT_BETA.to_string()]);
    assert_eq!(body.routectl_internal.operator_betas, vec![OPERATOR_BETA.to_string()]);
}

#[test]
fn the_paid_body_carries_the_origin_bit_and_the_background_marker() {
    let body = Dial::new(false).body();

    assert_eq!(body.routectl_internal.originating_claude_code_session, Some(true));
    assert!(body.routectl_internal.background_probe);
}

#[test]
fn the_paid_body_max_tokens_is_the_profiles_own_allowance_per_wire_shape() {
    assert_eq!(Dial::new(true).body().max_tokens, Some(ADAPTIVE_MIN_VIABLE_MAX_TOKENS));
    assert_eq!(Dial::new(false).body().max_tokens, Some(LEGACY_MIN_VIABLE_MAX_TOKENS));
    assert_ne!(ADAPTIVE_MIN_VIABLE_MAX_TOKENS, LEGACY_MIN_VIABLE_MAX_TOKENS);
}

#[test]
fn the_paid_body_allowance_is_never_the_free_paths_default() {
    for adaptive in [true, false] {
        assert_ne!(Dial::new(adaptive).body().max_tokens, Some(2048));
    }
}

#[test]
fn a_body_without_a_given_allowance_has_the_free_one() {
    let mut dial = Dial::new(false);
    let auth = dial.authorize();

    let body = build_probe_request(auth.seat(), auth.payload(), None);

    assert_eq!(FREE_PROBE_MAX_TOKENS, 2048);
    assert_eq!(body.max_tokens, Some(FREE_PROBE_MAX_TOKENS));
    assert!(body.system.is_none());
    assert!(body.tools.is_none());
    assert!(body.provider_extras.is_none());
}

#[test]
fn a_gate_refusal_makes_zero_provider_calls_on_a_committed_unit() {
    let mut dial = Dial::new(false);
    let auth = dial.authorize();

    let DialStep::Deferred(settlement) = dial.router.begin_dial(&mut dial.board, auth, true)
    else {
        panic!("a declined call hands out no body");
    };

    assert_eq!(settlement.outcome, PaidProbeDialOutcome::GateDeferred);
    assert_eq!(settlement.outcome_token, "gate_deferred");
    assert_eq!(settlement.failure_token, "");
    assert_eq!(dial.ledger.calls.get(), 1);
    assert!(dial.board.candidates.is_empty());
    assert_eq!(dial.board.in_flight, 0);
}

#[test]
fn a_successful_pass_completes_and_gives_the_slot_back() {
    let mut dial = Dial::new(false);

    let pass = dial.pass(&DialAnswer::Answered);

    assert_eq!(pass, PaidProbePass::Dialed(PaidProbeDialOutcome::Completed));
    assert_eq!(dial.board.in_flight, 0);
    assert!(dial.board.candidates.is_empty());
}

#[test]
fn a_never_answering_upstream_expires_at_the_probe_operation_bound() {
    let mut dial = Dial::new(false);

    let pass = dial.pass(&DialAnswer::TimedOut);

    assert_eq!(pass, PaidProbePass::Dialed(PaidProbeDialOutcome::TimedOut));
    assert!(dial.board.candidates.is_empty());
    assert_eq!(dial.board.in_flight, 0);
}

#[test]
fn a_refused_pass_makes_no_call_and_leaves_the_recorder_empty() {
    let mut dial = Dial::new(false);
    dial.router.claim_paid_probe_candidate(&mut dial.board);

    let pass = dial.pass(&DialAnswer::Answered);

    assert_eq!(pass, PaidProbePass::Refused(PaidProbeRefusal::NoCandidate));
    assert_eq!(dial.ledger.calls.get(), 0);
}

#[test]
fn a_reload_and_a_cap_lowering_after_the_commit_do_not_cancel_the_call() {
    let mut dial = Dial::new(false);
    let auth = dial.authorize();
    let granted_under = auth.incarnation();
    dial.router.publish_probe_incarnation(&mut dial.board);
    dial.router.config = Arc::new(config(0));

    let (_body, in_flight) = dial.call(auth);
    let settlement =
        dial.router.dial_paid_probe(&mut dial.board, in_flight, &DialAnswer::Answered);

    assert_eq!(settlement.outcome, PaidProbeDialOutcome::Completed);
    assert_eq!(settlement.incarnation, granted_under);
    assert_eq!((settlement.committed_used, settlement.committed_cap), (3, 5));
    assert_eq!(dial.board.in_flight, 0);

    dial.router.publish_probe_incarnation(&mut dial.board);
    dial.seed();
    let fresh = dial.pass(&DialAnswer::Answered);
    assert_eq!(fresh, PaidProbePass::Refused(PaidProbeRefusal::CapZero));
    assert_eq!(dial.ledger.calls.get(), 1, "and nothing more was reserved");
}

#[test]
fn a_declined_pass_is_over_with_its_unit_spent() {
    let mut dial = Dial::new(false);
    let outcome = dial.router.authorize_paid_probe(&mut dial.board);

    let PassStep::Over(pass, settlement) =
        dial.router.begin_paid_pass(&mut dial.board, outcome, true)
    else {
        panic!("a declined call hands out no body");
    };

    assert_eq!(pass, PaidProbePass::Dialed(PaidProbeDialOutcome::GateDeferred));
    assert_eq!(settlement.unwrap().committed_used, 3);
    assert_eq!(dial.board.in_flight, 0);
}

#[test]
fn an_abandoned_call_gives_its_slot_back() {
    let mut dial = Dial::new(false);
    let auth = dial.authorize();
    let (_body, in_flight) = dial.call(auth);
    assert_eq!(dial.board.in_flight, 1);

    dial.board.release_paid_slot(in_flight.abandon());

    assert_eq!(dial.board.in_flight, 0);
    assert!(dial.board.candidates.is_empty());
}

#[test]
fn a_probe_body_carries_nothing_of_a_client() {
    let body = Dial::new(false).body();
    let internal = &body.routectl_internal;

    assert!(internal.forwarded_bearer.is_none());
    assert!(internal.inbound_session_key.is_none());
    assert!(internal.header_extras.is_none());
    assert!(internal.claude_code_headers.is_empty());
    assert!(internal.stainless_headers.is_empty());
    assert!(internal.responses_input_passthrough.is_empty());
    assert!(internal.reasoning_dialect.is_none());
    assert!(internal.history_reasoning.is_none());
    assert!(internal.effort_levels.is_empty());
    assert_eq!((internal.max_thinking_budget, internal.max_output_tokens), (0, 0));
}

fn paid_failure_table() -> Vec<(FailureClass, PaidProbeFailure)> {
    vec![
        (
            FailureClass::FeatureUnsupported { capability: "thinking".to_string() },
            PaidProbeFailure::CapabilityRejected,
        ),
        (FailureClass::Auth, PaidProbeFailure::AuthRejected),
        (FailureClass::RateLimited, PaidProbeFailure::Throttled),
        (FailureClass::Overloaded, PaidProbeFailure::Throttled),
        (FailureClass::ServerError, PaidProbeFailure::Transient),
        (FailureClass::NetworkError, PaidProbeFailure::Transient),
        (FailureClass::Timeout, PaidProbeFailure::Transient),
        (FailureClass::BadRequest, PaidProbeFailure::RequestRefused),
        (FailureClass::ContextWindow, PaidProbeFailure::RequestRefused),
        (FailureClass::ContentPolicy, PaidProbeFailure::RequestRefused),
        (FailureClass::Unknown, PaidProbeFailure::Unclassified),
    ]
}

#[test]
fn every_failure_class_maps_to_its_stated_paid_class() {
    for (class, expected) in paid_failure_table() {
        let mapped = paid_failure_for_class(&class);
        assert_eq!(mapped, expected, "{} is no {}", mapped.as_str(), expected.as_str());
    }
}

#[test]
fn every_current_failure_class_has_an_explicit_paid_mapping() {
    let table = paid_failure_table();
    let covered = |probe: &FailureClass| {
        table
            .iter()
            .any(|(class, _)| std::mem::discriminant(class) == std::mem::discriminant(probe))
    };
    for variant in [
        FailureClass::RateLimited,
        FailureClass::Auth,
        FailureClass::BadRequest,
        FailureClass::ContentPolicy,
        FailureClass::ContextWindow,
        FailureClass::ServerError,
        FailureClass::Timeout,
        FailureClass::NetworkError,
        FailureClass::Overloaded,
        FailureClass::FeatureUnsupported { capability: String::new() },
        FailureClass::Unknown,
    ] {
        assert!(covered(&variant));
    }
    assert_eq!(table.len(), 11);
}

#[test]
fn a_capability_rejection_is_its_own_class_distinct_from_a_malformed_request() {
    let capability = FailureClass::FeatureUnsupported { capability: "thinking".to_string() };

    assert_eq!(paid_failure_for_class(&capability), PaidProbeFailure::CapabilityRejected);
    assert_eq!(
        paid_failure_for_class(&FailureClass::BadRequest),
        PaidProbeFailure::RequestRefused,
    );
    assert_ne!(PaidProbeFailure::CapabilityRejected, PaidProbeFailure::RequestRefused);
}

#[test]
fn every_paid_failure_class_has_a_distinct_closed_token() {
    let all = [
        PaidProbeFailure::CapabilityRejected,
        PaidProbeFailure::AuthRejected,
        PaidProbeFailure::Throttled,
        PaidProbeFailure::Transient,
        PaidProbeFailure::RequestRefused,
        PaidProbeFailure::Unclassified,
    ];
    for failure in all {
        match failure {
            PaidProbeFailure::CapabilityRejected
            | PaidProbeFailure::AuthRejected
            | PaidProbeFailure::Throttled
            | PaidProbeFailure::Transient
            | PaidProbeFailure::RequestRefused
            | PaidProbeFailure::Unclassified => {}
        }
    }
    let tokens: Vec<&str> = all.iter().copied().map(PaidProbeFailure::as_str).collect();
    let distinct: BTreeSet<&str> = tokens.iter().copied().collect();
    assert_eq!(distinct.len(), tokens.len(), "every class needs its own token: {tokens:?}");
    assert_eq!(distinct.len(), 6, "one token per class: {tokens:?}");
}

#[test]
fn a_failing_pass_settles_with_its_class_and_is_not_tried_again() {
    for (class, expected) in paid_failure_table() {
        let mut dial = Dial::new(false);
        let auth = dial.authorize();
        let answer = DialAnswer::Failed(class);

        let (_body, in_flight) = dial.call(auth);
        let settlement = dial.router.dial_paid_probe(&mut dial.board, in_flight, &answer);

        assert_eq!(settlement.outcome, PaidProbeDialOutcome::ProviderFailed(expected));
        assert_eq!(settlement.outcome.failure(), Some(expected));
        assert_eq!(settlement.outcome_token, "provider_failed");
        assert_eq!(settlement.failure_token, expected.as_str());
        assert_eq!(dial.ledger.calls.get(), 1);
        assert!(dial.board.candidates.is_empty());
    }
}

#[test]
fn every_dial_outcome_has_a_distinct_token() {
    let outcomes = [
        read_answer(&DialAnswer::Answered),
        read_answer(&DialAnswer::Failed(FailureClass::Unknown)),
        read_answer(&DialAnswer::TimedOut),
        PaidProbeDialOutcome::GateDeferred,
    ];
    let tokens: Vec<&str> = outcomes.iter().map(|o| o.as_str()).collect();
    assert_eq!(tokens, vec!["completed", "provider_failed", "timed_out", "gate_deferred"]);
    assert_eq!(outcomes[0].failure(), None);
    assert_eq!(outcomes[1].failure(), Some(PaidProbeFailure::Unclassified));
}
