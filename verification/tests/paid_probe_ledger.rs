use std::cell::Cell;
use std::cell::RefCell;
use std::collections::BTreeSet;
use std::sync::Arc;

use routectl_router::config::Config;
use routectl_router::metrics::RouterMetrics;
use routectl_router::paid_probe_ledger::PaidProbeLedger;
use routectl_router::paid_probe_ledger::PaidProbeReservation;

type Router = routectl_router::router::Router<u8, LedgerHandle>;

struct CountingLedger {
    calls: Cell<usize>,
    seen: RefCell<Vec<(String, u32)>>,
    answer: PaidProbeReservation,
}

impl CountingLedger {
    fn answering(answer: PaidProbeReservation) -> Arc<Self> {
        Arc::new(CountingLedger { calls: Cell::new(0), seen: RefCell::new(Vec::new()), answer })
    }

    fn committed() -> Arc<Self> {
        Self::answering(PaidProbeReservation::Committed { used: 1, cap: 5 })
    }

    fn calls(&self) -> usize {
        self.calls.get()
    }
}

/// A handle on a ledger that several routers may share.
#[derive(Clone)]
struct LedgerHandle(Arc<CountingLedger>);

impl PaidProbeLedger for LedgerHandle {
    fn reserve_paid_probe_unit(&mut self, provider: &str, daily_cap: u32) -> PaidProbeReservation {
        let ledger = &self.0;
        ledger.calls.set(ledger.calls.get() + 1);
        ledger.seen.borrow_mut().push((provider.to_string(), daily_cap));
        ledger.answer
    }
}

fn bare_router() -> Router {
    Router::new(Arc::new(Config::empty()), 1)
}

fn every_refusal() -> Vec<PaidProbeReservation> {
    let all = vec![
        PaidProbeReservation::CapExhausted,
        PaidProbeReservation::MalformedState,
        PaidProbeReservation::WriteFailed,
        PaidProbeReservation::Overloaded,
        PaidProbeReservation::Unavailable,
    ];
    for outcome in &all {
        match outcome {
            PaidProbeReservation::CapExhausted
            | PaidProbeReservation::MalformedState
            | PaidProbeReservation::WriteFailed
            | PaidProbeReservation::Overloaded
            | PaidProbeReservation::Unavailable => {}
            PaidProbeReservation::Committed { .. } => {
                panic!("the refusal set must not contain a commit")
            }
        }
    }
    all
}

#[test]
fn absent_ledger_refuses_at_every_cap() {
    let mut router = bare_router();

    assert!(router.paid_probe_ledger().is_none());
    for cap in [0_u32, 1, 7, u32::MAX] {
        let outcome = router.reserve_paid_probe_unit("anthropic", cap);
        assert_eq!(outcome, PaidProbeReservation::Unavailable, "at cap {cap}");
        assert!(!outcome.permits_paid_call());
    }
}

#[test]
fn installed_ledger_answers_and_is_asked_once_per_reservation() {
    let ledger = CountingLedger::committed();
    let mut router = bare_router().with_paid_probe_ledger(LedgerHandle(ledger.clone()));

    let outcome = router.reserve_paid_probe_unit("anthropic", 5);

    assert_eq!(outcome, PaidProbeReservation::Committed { used: 1, cap: 5 });
    assert!(outcome.permits_paid_call());
    assert_eq!(ledger.calls(), 1);
    assert_eq!(*ledger.seen.borrow(), vec![("anthropic".to_string(), 5)]);
}

#[test]
fn installed_ledger_refusals_pass_through_and_permit_nothing() {
    for refusal in every_refusal() {
        let ledger = CountingLedger::answering(refusal);
        let mut router = bare_router().with_paid_probe_ledger(LedgerHandle(ledger.clone()));

        let outcome = router.reserve_paid_probe_unit("anthropic", 5);

        assert_eq!(outcome, refusal);
        assert!(!outcome.permits_paid_call(), "{}", refusal.as_str());
        assert_eq!(ledger.calls(), 1);
    }
}

#[test]
fn only_a_commit_permits_a_paid_call() {
    assert!(
        PaidProbeReservation::Committed { used: 3, cap: 3 }.permits_paid_call(),
        "a commit must permit the dial it was reserved for",
    );
    for refusal in every_refusal() {
        assert!(!refusal.permits_paid_call(), "{}", refusal.as_str());
    }
}

#[test]
fn every_outcome_has_a_distinct_log_token() {
    let mut tokens = vec![PaidProbeReservation::Committed { used: 1, cap: 1 }.as_str()];
    tokens.extend(every_refusal().iter().map(PaidProbeReservation::as_str));

    assert_eq!(tokens.len(), 6, "one token per public variant: commit plus five refusals");
    let distinct: BTreeSet<&str> = tokens.iter().copied().collect();
    assert_eq!(
        distinct.len(),
        tokens.len(),
        "every reservation outcome needs its own token: {tokens:?}",
    );
    assert!(
        tokens.contains(&"overloaded"),
        "saturation is reported mechanism-neutrally: {tokens:?}",
    );
}

#[test]
fn an_overloaded_accounting_layer_permits_nothing() {
    let overloaded = PaidProbeReservation::Overloaded;

    assert!(!overloaded.permits_paid_call());
    assert_eq!(overloaded.as_str(), "overloaded");
}

#[test]
fn carry_over_attaches_the_same_ledger_instance() {
    let ledger = CountingLedger::committed();
    let mut before = bare_router().with_paid_probe_ledger(LedgerHandle(ledger.clone()));
    let mut after = bare_router();
    let mut metrics = RouterMetrics::default();

    after.carry_over_learned_from(&before, &mut metrics);

    let carried = after.paid_probe_ledger().expect("the replacement must carry the ledger");
    assert!(Arc::ptr_eq(&carried.0, &ledger));

    before.reserve_paid_probe_unit("anthropic", 5);
    after.reserve_paid_probe_unit("anthropic", 5);
    assert_eq!(ledger.calls(), 2);
}

#[test]
fn carry_over_from_a_ledgerless_router_stays_fail_closed() {
    let before = bare_router();
    let mut after = bare_router();
    let mut metrics = RouterMetrics::default();

    after.carry_over_learned_from(&before, &mut metrics);

    assert!(after.paid_probe_ledger().is_none());
    assert_eq!(
        after.reserve_paid_probe_unit("anthropic", 5),
        PaidProbeReservation::Unavailable,
    );
}

#[test]
fn carry_over_from_a_ledgerless_router_clears_a_ledger() {
    let ledger = CountingLedger::committed();
    let before = bare_router();
    let mut after = bare_router().with_paid_probe_ledger(LedgerHandle(ledger.clone()));
    let mut metrics = RouterMetrics::default();

    after.carry_over_learned_from(&before, &mut metrics);

    assert!(after.paid_probe_ledger().is_none());
    assert_eq!(
        after.reserve_paid_probe_unit("anthropic", 5),
        PaidProbeReservation::Unavailable,
    );
    assert_eq!(ledger.calls(), 0);
}
