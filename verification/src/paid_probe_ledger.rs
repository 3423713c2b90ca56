//! The ledger that pays for probes.

use vstd::prelude::*;

use crate::router::Router;

verus! {

/// Durable reservation of one paid-probe unit against a provider's daily
/// budget, asked for through a handle. Clones of a handle stand for the one
/// ledger.
pub trait PaidProbeLedger {
    /// Whether one question through this handle, for one unit of `provider`
    /// against `daily_cap`, may be given `answer` and leave the handle as
    /// `after`. It holds of single questions: a handle that keeps a record of
    /// what was asked says here that `after` has this entry more. A ledger that
    /// promises nothing leaves this as it is.
    open spec fn asked_once(
        &self,
        provider: Seq<char>,
        daily_cap: u32,
        answer: PaidProbeReservation,
        after: &Self,
    ) -> bool {
        true
    }

    /// Reserves one unit for the configured `provider` against `daily_cap` and
    /// answers what the accounting permits.
    fn reserve_paid_probe_unit(&mut self, provider: &str, daily_cap: u32) -> (answer:
        PaidProbeReservation)
        ensures
            old(self).asked_once(provider@, daily_cap, answer, final(self)),
    ;
}

/// What one reservation came to.
#[derive(Clone, Copy, PartialEq, Eq, Structural, Debug)]
pub enum PaidProbeReservation {
    /// One unit is durably reserved. The only outcome that permits a call.
    Committed {
        /// Units committed for the provider's current day, this one counted.
        used: u32,
        /// The cap that the reservation was checked against.
        cap: u32,
    },
    /// The units of the current day are spent, or the cap is zero.
    CapExhausted,
    /// The stored state could not be read as a count.
    MalformedState,
    /// The durable write did not land.
    WriteFailed,
    /// The accounting is saturated; nothing was attempted.
    Overloaded,
    /// No accounting can be reached.
    Unavailable,
}

impl PaidProbeReservation {
    /// Whether a paid call may proceed: only on a commit.
    pub fn permits_paid_call(&self) -> (yes: bool)
        ensures
            yes == (*self is Committed),
    {
        match self {
            PaidProbeReservation::Committed { .. } => true,
            _ => false,
        }
    }

    /// The log token of an outcome.
    pub open spec fn token(self) -> Seq<char> {
        match self {
            PaidProbeReservation::Committed { .. } => "committed"@,
            PaidProbeReservation::CapExhausted => "cap_exhausted"@,
            PaidProbeReservation::MalformedState => "malformed_state"@,
            PaidProbeReservation::WriteFailed => "write_failed"@,
            PaidProbeReservation::Overloaded => "overloaded"@,
            PaidProbeReservation::Unavailable => "unavailable"@,
        }
    }

    /// The log token of the outcome.
    pub fn as_str(&self) -> (token: &'static str)
        ensures
            token@ == self.token(),
    {
        match self {
            PaidProbeReservation::Committed { .. } => "committed",
            PaidProbeReservation::CapExhausted => "cap_exhausted",
            PaidProbeReservation::MalformedState => "malformed_state",
            PaidProbeReservation::WriteFailed => "write_failed",
            PaidProbeReservation::Overloaded => "overloaded",
            PaidProbeReservation::Unavailable => "unavailable",
        }
    }
}

impl<P, L> Router<P, L> {
    /// The router with `ledger` installed, in place of any other.
    pub fn with_paid_probe_ledger(self, ledger: L) -> (out: Self)
        ensures
            out == (Router { paid_probe_ledger: Some(ledger), ..self }),
    {
        Router { paid_probe_ledger: Some(ledger), ..self }
    }

    /// The installed ledger.
    pub fn paid_probe_ledger(&self) -> (ledger: Option<&L>)
        ensures
            match ledger {
                Some(installed) => self.paid_probe_ledger == Some(*installed),
                None => self.paid_probe_ledger is None,
            },
    {
        self.paid_probe_ledger.as_ref()
    }
}

impl<P, L: PaidProbeLedger> Router<P, L> {
    /// Whether the installed ledger, asked exactly once for one unit of
    /// `provider` against `daily_cap`, may give `answer` and stand as `after`.
    pub open spec fn ledger_asked(
        &self,
        provider: Seq<char>,
        daily_cap: u32,
        answer: PaidProbeReservation,
        after: Option<L>,
    ) -> bool {
        match (self.paid_probe_ledger, after) {
            (Some(ledger), Some(then)) => ledger.asked_once(provider, daily_cap, answer, &then),
            _ => false,
        }
    }

    /// Reserves one unit: the installed ledger is asked for it once, of this
    /// provider and against this cap, and its answer stands. Without a ledger
    /// there is no permission.
    pub fn reserve_paid_probe_unit(&mut self, provider: &str, daily_cap: u32) -> (out:
        PaidProbeReservation)
        ensures
            match old(self).paid_probe_ledger {
                Some(_) => old(self).ledger_asked(
                    provider@,
                    daily_cap,
                    out,
                    final(self).paid_probe_ledger,
                ),
                None => {
                    &&& out == PaidProbeReservation::Unavailable
                    &&& final(self).paid_probe_ledger is None
                },
            },
            *final(self) == (Router {
                paid_probe_ledger: final(self).paid_probe_ledger,
                ..*old(self)
            }),
    {
        match &mut self.paid_probe_ledger {
            Some(ledger) => ledger.reserve_paid_probe_unit(provider, daily_cap),
            None => PaidProbeReservation::Unavailable,
        }
    }
}

} // verus!
