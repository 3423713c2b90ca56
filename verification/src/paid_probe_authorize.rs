//! Authorizing one paid probe: which candidate may be paid for, and what a
//! reservation permits.
//!
//! An authorization takes two steps, because the ledger answers in its own
//! time. The first checks everything that can be checked without the ledger
//! and takes a slot. The second reads the reply, and checks once more that the
//! router's publication is still in force. A unit is never given back, so a
//! candidate whose unit may have been committed is never tried again.

use vstd::prelude::*;

use crate::paid_probe_ledger::PaidProbeLedger;
use crate::paid_probe_ledger::PaidProbeReservation;
use crate::paid_probe_profile::PaidProbeProfile;
use crate::probe::FieldVerdictKey;
use crate::probe::waits;
use crate::probe::PaidProbeCandidate;
use crate::probe::ProbeBoard;
use crate::probe::ProbePayload;
use crate::probe::PROBE_MAX_CONCURRENCY;
use crate::probe_seat::describes;
use crate::probe_seat::seat_provider;
use crate::probe_seat::sole_seat;
use crate::probe_seat::ProbeSeat;
use crate::router::Router;

verus! {

/// How long a reservation is waited for, in seconds.
pub const PAID_PROBE_RESERVATION_TIMEOUT_SECS: u64 = 5;

/// The units behind an authorization.
#[derive(Clone, Copy, PartialEq, Eq, Structural, Debug)]
pub struct CommittedUnits {
    used: u32,
    cap: u32,
}

impl CommittedUnits {
    /// Units committed for the provider's current day.
    pub closed spec fn used_units(self) -> u32 {
        self.used
    }

    /// The cap that they were committed under.
    pub closed spec fn cap_units(self) -> u32 {
        self.cap
    }

    /// Units committed for the provider's current day.
    pub fn used(self) -> (used: u32)
        ensures
            used == self.used_units(),
    {
        self.used
    }

    /// The cap that they were committed under.
    pub fn cap(self) -> (cap: u32)
        ensures
            cap == self.cap_units(),
    {
        self.cap
    }
}

/// One of the slots for probes in flight. It names no lane.
#[derive(Debug)]
pub struct PaidProbeSlot {
    taken: (),
}

/// Permission for one paid call. It cannot be copied: one committed unit pays
/// for one call.
pub struct PaidProbeAuthorization<P> {
    key: FieldVerdictKey,
    incarnation: u64,
    payload: ProbePayload,
    seat: ProbeSeat<P>,
    profile: PaidProbeProfile,
    committed: CommittedUnits,
    slot: PaidProbeSlot,
}

impl<P> PaidProbeAuthorization<P> {
    /// The lane that the call asks about.
    pub closed spec fn lane(self) -> FieldVerdictKey {
        self.key
    }

    /// The publication that the permission was granted under.
    pub closed spec fn granted_under(self) -> u64 {
        self.incarnation
    }

    /// What the call asks.
    pub closed spec fn question(self) -> ProbePayload {
        self.payload
    }

    /// The seat that the call is made to.
    pub closed spec fn target(self) -> ProbeSeat<P> {
        self.seat
    }

    /// How the call is sized.
    pub closed spec fn size(self) -> PaidProbeProfile {
        self.profile
    }

    /// The units that pay for the call.
    pub closed spec fn units(self) -> CommittedUnits {
        self.committed
    }

    /// The lane that the call asks about.
    pub fn key(&self) -> (key: &FieldVerdictKey)
        ensures
            *key == self.lane(),
    {
        &self.key
    }

    /// The publication that the permission was granted under.
    pub fn incarnation(&self) -> (stamp: u64)
        ensures
            stamp == self.granted_under(),
    {
        self.incarnation
    }

    /// What the call asks.
    pub fn payload(&self) -> (payload: &ProbePayload)
        ensures
            *payload == self.question(),
    {
        &self.payload
    }

    /// The seat that the call is made to.
    pub fn seat(&self) -> (seat: &ProbeSeat<P>)
        ensures
            *seat == self.target(),
    {
        &self.seat
    }

    /// How the call is sized.
    pub fn profile(&self) -> (profile: PaidProbeProfile)
        ensures
            profile == self.size(),
    {
        self.profile
    }

    /// The units that pay for the call.
    pub fn committed(&self) -> (units: CommittedUnits)
        ensures
            units == self.units(),
    {
        self.committed
    }

    /// The slot that the call is made in.
    pub closed spec fn held_slot(self) -> PaidProbeSlot {
        self.slot
    }

    /// Gives the slot back, ending the permission.
    pub fn into_slot(self) -> (slot: PaidProbeSlot)
        ensures
            slot == self.held_slot(),
    {
        self.slot
    }
}

/// What of an authorization may be written to a log: the numbers that it owns,
/// and of the rest that it was withheld.
#[derive(Debug)]
pub struct RedactedAuthorization {
    /// The publication that the permission was granted under.
    pub incarnation: u64,
    /// Units committed for the provider's current day.
    pub committed_used: u32,
    /// The cap that they were committed under.
    pub committed_cap: u32,
    /// The output allowance of the call.
    pub max_tokens: u32,
    /// Withheld.
    pub key: &'static str,
    /// Withheld.
    pub seat: &'static str,
    /// Withheld.
    pub payload: &'static str,
    /// Withheld.
    pub slot: &'static str,
}

/// Whether `out` is what may be written of these numbers, and of nothing else.
pub open spec fn redacted_to(
    out: RedactedAuthorization,
    incarnation: u64,
    units: CommittedUnits,
    size: PaidProbeProfile,
) -> bool {
    &&& out.incarnation == incarnation
    &&& out.committed_used == units.used_units()
    &&& out.committed_cap == units.cap_units()
    &&& out.max_tokens == size.allowance()
    &&& out.key@ == "<elided>"@
    &&& out.seat@ == "<elided>"@
    &&& out.payload@ == "<elided>"@
    &&& out.slot@ == "<elided>"@
}

impl<P> PaidProbeAuthorization<P> {
    /// What of the authorization may be written to a log. The lane, the seat
    /// and what the call asks play no part in it.
    pub fn redacted(&self) -> (out: RedactedAuthorization)
        ensures
            redacted_to(out, self.granted_under(), self.units(), self.size()),
    {
        RedactedAuthorization {
            incarnation: self.incarnation,
            committed_used: self.committed.used,
            committed_cap: self.committed.cap,
            max_tokens: self.profile.max_tokens(),
            key: "<elided>",
            seat: "<elided>",
            payload: "<elided>",
            slot: "<elided>",
        }
    }
}

/// Why no paid call was authorized.
#[derive(Clone, Copy, PartialEq, Eq, Structural, Debug)]
pub enum PaidProbeRefusal {
    /// No candidate waits.
    NoCandidate,
    /// The candidate is of an earlier publication.
    StaleIncarnation,
    /// The lane names no seat, or several.
    NoSeat,
    /// A rejection could not be attributed to the seat's upstream.
    Unattributable,
    /// The provider's daily cap is zero.
    CapZero,
    /// The call cannot be sized.
    NoProfile,
    /// Every slot is taken.
    NoConcurrencySlot,
    /// The router's publication is no longer in force.
    Superseded,
    /// The ledger did not answer in time.
    ReservationTimeout,
    /// No ledger is installed.
    NoLedger,
    /// The ledger refused.
    Accounting(PaidProbeReservation),
}

impl PaidProbeRefusal {
    /// Whether the candidate is put back: only where a later pass can come to
    /// another answer and no unit can have been committed.
    pub open spec fn recoverable(self) -> bool {
        match self {
            PaidProbeRefusal::NoConcurrencySlot => true,
            PaidProbeRefusal::Accounting(answer) => {
                ||| answer is CapExhausted
                ||| answer is Overloaded
                ||| answer is WriteFailed
                ||| answer is MalformedState
            },
            _ => false,
        }
    }

    /// Whether the candidate is put back.
    pub fn requeues(&self) -> (yes: bool)
        ensures
            yes == self.recoverable(),
    {
        match self {
            PaidProbeRefusal::NoConcurrencySlot => true,
            PaidProbeRefusal::Accounting(answer) => match answer {
                PaidProbeReservation::CapExhausted => true,
                PaidProbeReservation::Overloaded => true,
                PaidProbeReservation::WriteFailed => true,
                PaidProbeReservation::MalformedState => true,
                PaidProbeReservation::Unavailable => false,
                PaidProbeReservation::Committed { .. } => false,
            },
            PaidProbeRefusal::NoCandidate => false,
            PaidProbeRefusal::StaleIncarnation => false,
            PaidProbeRefusal::NoSeat => false,
            PaidProbeRefusal::Unattributable => false,
            PaidProbeRefusal::CapZero => false,
            PaidProbeRefusal::NoProfile => false,
            PaidProbeRefusal::NoLedger => false,
            PaidProbeRefusal::Superseded => false,
            PaidProbeRefusal::ReservationTimeout => false,
        }
    }

    /// The log token of a refusal.
    pub open spec fn token(self) -> Seq<char> {
        match self {
            PaidProbeRefusal::NoCandidate => "no_candidate"@,
            PaidProbeRefusal::StaleIncarnation => "stale_incarnation"@,
            PaidProbeRefusal::NoSeat => "no_seat"@,
            PaidProbeRefusal::Unattributable => "unattributable"@,
            PaidProbeRefusal::CapZero => "cap_zero"@,
            PaidProbeRefusal::NoProfile => "no_profile"@,
            PaidProbeRefusal::NoConcurrencySlot => "no_concurrency_slot"@,
            PaidProbeRefusal::NoLedger => "no_ledger"@,
            PaidProbeRefusal::Superseded => "superseded"@,
            PaidProbeRefusal::ReservationTimeout => "reservation_timeout"@,
            PaidProbeRefusal::Accounting(answer) => answer.token(),
        }
    }

    /// The log token of the refusal.
    pub fn as_str(&self) -> (token: &'static str)
        ensures
            token@ == self.token(),
    {
        match self {
            PaidProbeRefusal::NoCandidate => "no_candidate",
            PaidProbeRefusal::StaleIncarnation => "stale_incarnation",
            PaidProbeRefusal::NoSeat => "no_seat",
            PaidProbeRefusal::Unattributable => "unattributable",
            PaidProbeRefusal::CapZero => "cap_zero",
            PaidProbeRefusal::NoProfile => "no_profile",
            PaidProbeRefusal::NoConcurrencySlot => "no_concurrency_slot",
            PaidProbeRefusal::NoLedger => "no_ledger",
            PaidProbeRefusal::Superseded => "superseded",
            PaidProbeRefusal::ReservationTimeout => "reservation_timeout",
            PaidProbeRefusal::Accounting(answer) => answer.as_str(),
        }
    }
}

/// What a pass at authorizing one paid call came to.
pub enum PaidProbeOutcome<P> {
    /// One call may be made.
    Authorized(Box<PaidProbeAuthorization<P>>),
    /// None may.
    Refused(PaidProbeRefusal),
}

impl<P> PaidProbeOutcome<P> {
    /// Why no call was authorized.
    pub fn refusal(&self) -> (refusal: Option<PaidProbeRefusal>)
        ensures
            refusal == (match *self {
                PaidProbeOutcome::Authorized(_) => None,
                PaidProbeOutcome::Refused(why) => Some(why),
            }),
    {
        match self {
            PaidProbeOutcome::Authorized(_) => None,
            PaidProbeOutcome::Refused(why) => Some(*why),
        }
    }
}

/// A reservation to be made: a candidate that passed every check, what to ask
/// the ledger for it, and what the call will be made with. It holds a slot.
///
/// Only the checks make one, and it is settled once.
pub struct PendingReservation<P> {
    key: FieldVerdictKey,
    incarnation: u64,
    payload: ProbePayload,
    seat: ProbeSeat<P>,
    profile: PaidProbeProfile,
    daily_cap: u32,
    slot: PaidProbeSlot,
}

impl<P> PendingReservation<P> {
    /// The lane that the call will ask about.
    pub closed spec fn lane(self) -> FieldVerdictKey {
        self.key
    }

    /// The publication that the candidate was recorded under.
    pub closed spec fn recorded_under(self) -> u64 {
        self.incarnation
    }

    /// What the call will ask.
    pub closed spec fn question(self) -> ProbePayload {
        self.payload
    }

    /// The seat that the call will be made to.
    pub closed spec fn target(self) -> ProbeSeat<P> {
        self.seat
    }

    /// How the call will be sized.
    pub closed spec fn size(self) -> PaidProbeProfile {
        self.profile
    }

    /// The cap to ask with.
    pub closed spec fn cap(self) -> u32 {
        self.daily_cap
    }

    /// The slot that the call will be made in.
    pub closed spec fn held_slot(self) -> PaidProbeSlot {
        self.slot
    }

    /// Whether this is the reservation for this candidate.
    pub open spec fn is_for(self, candidate: PaidProbeCandidate) -> bool {
        &&& self.lane() == candidate.key
        &&& self.recorded_under() == candidate.incarnation
        &&& self.question().same(candidate.payload)
    }

    /// The provider to ask the ledger for a unit of.
    pub fn provider_name(&self) -> (name: &str)
        ensures
            name@ == self.target().provider_name@,
    {
        self.seat.provider_name.as_str()
    }

    /// The cap to ask the ledger with.
    pub fn daily_cap(&self) -> (cap: u32)
        ensures
            cap == self.cap(),
    {
        self.daily_cap
    }

    /// Gives the slot back without a call, ending the reservation.
    pub fn abandon(self) -> (slot: PaidProbeSlot)
        ensures
            slot == self.held_slot(),
    {
        self.slot
    }
}

/// What the checks that need no ledger came to.
pub enum AuthorizationStep<P> {
    /// No call may be made.
    Refused(PaidProbeRefusal),
    /// The ledger is to be asked.
    Reserve(PendingReservation<P>),
}

/// What came of asking the ledger.
#[derive(Clone, Copy, PartialEq, Eq, Structural, Debug)]
pub enum ReservationReply {
    /// It did not answer in time, and may still commit the unit.
    TimedOut,
    /// It answered.
    Answered(PaidProbeReservation),
}

/// Why a reply permits no call, given whether the router's publication is
/// still in force: anything but a commit under a publication in force.
pub open spec fn reply_refusal(reply: ReservationReply, current: bool) -> Option<
    PaidProbeRefusal,
> {
    match reply {
        ReservationReply::TimedOut => Some(PaidProbeRefusal::ReservationTimeout),
        ReservationReply::Answered(answer) => if !(answer is Committed) {
            Some(PaidProbeRefusal::Accounting(answer))
        } else if !current {
            Some(PaidProbeRefusal::Superseded)
        } else {
            None
        },
    }
}

/// Whether an authorization is for this candidate.
pub open spec fn authorizes<P>(
    auth: PaidProbeAuthorization<P>,
    candidate: PaidProbeCandidate,
) -> bool {
    &&& auth.lane() == candidate.key
    &&& auth.granted_under() == candidate.incarnation
    &&& auth.question().same(candidate.payload)
}

/// Whether an authorization is what a pending reservation comes to, paid for
/// by this reply.
pub open spec fn grants<P>(
    auth: PaidProbeAuthorization<P>,
    pending: PendingReservation<P>,
    reply: ReservationReply,
) -> bool {
    &&& auth.lane() == pending.lane()
    &&& auth.granted_under() == pending.recorded_under()
    &&& auth.question() == pending.question()
    &&& auth.target() == pending.target()
    &&& auth.size() == pending.size()
    &&& auth.held_slot() == pending.held_slot()
    &&& paid_by(auth, reply)
}

/// Whether this reply committed the units of an authorization.
pub open spec fn paid_by<P>(auth: PaidProbeAuthorization<P>, reply: ReservationReply) -> bool {
    reply == ReservationReply::Answered(
        PaidProbeReservation::Committed {
            used: auth.units().used_units(),
            cap: auth.units().cap_units(),
        },
    )
}

/// Whether a board is another one with a different number of probes in flight.
pub open spec fn same_but_in_flight(after: ProbeBoard, before: ProbeBoard) -> bool {
    after == (ProbeBoard { in_flight: after.in_flight, ..before })
}

/// Units committed after a reply.
pub open spec fn committed_after(total: u64, reply: ReservationReply) -> u64 {
    match reply {
        ReservationReply::Answered(PaidProbeReservation::Committed { .. }) => total.wrapping_add(1),
        _ => total,
    }
}

impl ProbeBoard {
    /// Takes a slot, where one is free.
    pub fn try_acquire_paid_slot(&mut self) -> (slot: Option<PaidProbeSlot>)
        ensures
            (slot is Some) == (old(self).in_flight < PROBE_MAX_CONCURRENCY),
            final(self).in_flight == (if slot is Some {
                old(self).in_flight + 1
            } else {
                old(self).in_flight as int
            }),
            same_but_in_flight(*final(self), *old(self)),
    {
        if self.in_flight >= PROBE_MAX_CONCURRENCY {
            return None;
        }
        self.in_flight = self.in_flight + 1;
        Some(PaidProbeSlot { taken: () })
    }

    /// Gives a slot back.
    pub fn release_paid_slot(&mut self, slot: PaidProbeSlot)
        requires
            old(self).in_flight > 0,
        ensures
            final(self).in_flight == old(self).in_flight - 1,
            same_but_in_flight(*final(self), *old(self)),
    {
        self.in_flight = self.in_flight - 1;
    }
}

impl<P, L> Router<P, L> {
    /// Why a candidate may not be paid for, as far as that shows without the
    /// ledger; the first reason in the order of the checks.
    pub open spec fn local_refusal(&self, board: ProbeBoard, candidate: PaidProbeCandidate) -> Option<
        PaidProbeRefusal,
    > {
        let key = candidate.key.state_key@;
        if candidate.incarnation != self.probe_incarnation {
            Some(PaidProbeRefusal::StaleIncarnation)
        } else {
            match sole_seat(self.resolved_models@, key) {
                None => Some(PaidProbeRefusal::NoSeat),
                Some(place) => if !self.attributable(
                    seat_provider(self.resolved_models@, place),
                ) {
                    Some(PaidProbeRefusal::Unattributable)
                } else if self.daily_cap(key) == 0 {
                    Some(PaidProbeRefusal::CapZero)
                } else if self.lane_sizing(key) is None {
                    Some(PaidProbeRefusal::NoProfile)
                } else if self.paid_probe_ledger is None {
                    Some(PaidProbeRefusal::NoLedger)
                } else if board.in_flight >= PROBE_MAX_CONCURRENCY {
                    Some(PaidProbeRefusal::NoConcurrencySlot)
                } else if !self.current(board) {
                    Some(PaidProbeRefusal::Superseded)
                } else {
                    None
                },
            }
        }
    }

    /// Whether a pending reservation is on the terms of this lane.
    pub open spec fn on_terms(&self, pending: PendingReservation<P>, state_key: Seq<char>) -> bool {
        &&& sole_seat(self.resolved_models@, state_key) is Some
        &&& describes(
            pending.target(),
            *self.config,
            self.resolved_models@,
            state_key,
            sole_seat(self.resolved_models@, state_key)->0,
        )
        &&& pending.cap() == self.daily_cap(state_key)
        &&& self.lane_sizing(state_key) == Some(
            (pending.size().allowance(), pending.size().ceiling()),
        )
    }

    /// First step: checks a claimed candidate and takes a slot. The ledger is
    /// not asked.
    pub fn begin_authorization(&self, board: &mut ProbeBoard, candidate: &PaidProbeCandidate) -> (step:
        AuthorizationStep<P>)
        ensures
            same_but_in_flight(*final(board), *old(board)),
            match step {
                AuthorizationStep::Refused(why) => {
                    &&& self.local_refusal(*old(board), *candidate) == Some(why)
                    &&& final(board).in_flight == old(board).in_flight
                },
                AuthorizationStep::Reserve(pending) => {
                    &&& self.local_refusal(*old(board), *candidate) is None
                    &&& pending.is_for(*candidate)
                    &&& self.on_terms(pending, candidate.key.state_key@)
                    &&& final(board).in_flight == old(board).in_flight + 1
                },
            },
    {
        if candidate.incarnation != self.probe_incarnation {
            return AuthorizationStep::Refused(PaidProbeRefusal::StaleIncarnation);
        }
        let seat = match self.probe_seat_for(&candidate.key) {
            Some(seat) => seat,
            None => {
                return AuthorizationStep::Refused(PaidProbeRefusal::NoSeat);
            },
        };
        if !self.probe_entry_is_attributable(seat.provider_name.as_str()) {
            return AuthorizationStep::Refused(PaidProbeRefusal::Unattributable);
        }
        let daily_cap = self.paid_probe_daily_cap(&candidate.key);
        if daily_cap == 0 {
            return AuthorizationStep::Refused(PaidProbeRefusal::CapZero);
        }
        let profile = match self.paid_probe_profile(&candidate.key) {
            Some(profile) => profile,
            None => {
                return AuthorizationStep::Refused(PaidProbeRefusal::NoProfile);
            },
        };
        if self.paid_probe_ledger().is_none() {
            return AuthorizationStep::Refused(PaidProbeRefusal::NoLedger);
        }
        let slot = match board.try_acquire_paid_slot() {
            Some(slot) => slot,
            None => {
                return AuthorizationStep::Refused(PaidProbeRefusal::NoConcurrencySlot);
            },
        };
        if !self.is_current_publication(board) {
            board.release_paid_slot(slot);
            return AuthorizationStep::Refused(PaidProbeRefusal::Superseded);
        }
        AuthorizationStep::Reserve(
            PendingReservation {
                key: candidate.key.copy(),
                incarnation: candidate.incarnation,
                payload: candidate.payload.copy(),
                seat,
                profile,
                daily_cap,
                slot,
            },
        )
    }

    /// Second step: reads the ledger's reply. The candidate, the seat and the
    /// size are those that were checked. Only a commit under a
    /// publication that is still in force authorizes the call; anything else
    /// gives the slot back. A commit is counted either way.
    pub fn settle_authorization(
        &self,
        board: &mut ProbeBoard,
        pending: PendingReservation<P>,
        reply: ReservationReply,
    ) -> (outcome: PaidProbeOutcome<P>)
        requires
            old(board).in_flight > 0,
        ensures
            match outcome {
                PaidProbeOutcome::Refused(why) => {
                    &&& reply_refusal(reply, self.current(*old(board))) == Some(why)
                    &&& final(board).in_flight == old(board).in_flight - 1
                },
                PaidProbeOutcome::Authorized(auth) => {
                    &&& reply_refusal(reply, self.current(*old(board))) is None
                    &&& grants(*auth, pending, reply)
                    &&& final(board).in_flight == old(board).in_flight
                },
            },
            *final(board) == (ProbeBoard {
                in_flight: final(board).in_flight,
                reservations_committed_total: committed_after(
                    old(board).reservations_committed_total,
                    reply,
                ),
                ..*old(board)
            }),
    {
        let answer = match reply {
            ReservationReply::Answered(answer) => answer,
            ReservationReply::TimedOut => {
                board.release_paid_slot(pending.slot);
                return PaidProbeOutcome::Refused(PaidProbeRefusal::ReservationTimeout);
            },
        };
        let (used, cap) = match answer {
            PaidProbeReservation::Committed { used, cap } => (used, cap),
            _ => {
                board.release_paid_slot(pending.slot);
                return PaidProbeOutcome::Refused(PaidProbeRefusal::Accounting(answer));
            },
        };
        board.reservations_committed_total = board.reservations_committed_total.wrapping_add(1);
        if !self.is_current_publication(board) {
            board.release_paid_slot(pending.slot);
            return PaidProbeOutcome::Refused(PaidProbeRefusal::Superseded);
        }
        PaidProbeOutcome::Authorized(
            Box::new(
                PaidProbeAuthorization {
                    key: pending.key,
                    incarnation: pending.incarnation,
                    payload: pending.payload,
                    seat: pending.seat,
                    profile: pending.profile,
                    committed: CommittedUnits { used, cap },
                    slot: pending.slot,
                },
            ),
        )
    }

    /// Ends a pass: puts the claimed candidate back where the refusal is one
    /// that a later pass can come to another answer on, and drops it
    /// otherwise.
    pub fn finish_pass(
        &self,
        board: &mut ProbeBoard,
        candidate: PaidProbeCandidate,
        outcome: &PaidProbeOutcome<P>,
    )
        ensures
            match *outcome {
                PaidProbeOutcome::Refused(why) => if why.recoverable() {
                    self.requeued(*old(board), candidate, *final(board))
                } else {
                    *final(board) == *old(board)
                },
                PaidProbeOutcome::Authorized(_) => *final(board) == *old(board),
            },
            old(board).wf() ==> final(board).wf(),
    {
        match outcome {
            PaidProbeOutcome::Refused(why) => {
                if why.requeues() {
                    self.requeue_paid_probe_candidate(board, candidate);
                }
            },
            PaidProbeOutcome::Authorized(_) => {},
        }
    }
}

impl<P, L: PaidProbeLedger> Router<P, L> {
    /// Whether the installed ledger may give this reply, and stand as `after`,
    /// when it is asked exactly once for a unit of the provider that serves the
    /// lane, against its daily cap.
    pub open spec fn may_reply(
        &self,
        state_key: Seq<char>,
        reply: ReservationReply,
        after: Option<L>,
    ) -> bool {
        match (sole_seat(self.resolved_models@, state_key), reply) {
            (Some(place), ReservationReply::Answered(answer)) => self.ledger_asked(
                seat_provider(self.resolved_models@, place),
                self.daily_cap(state_key),
                answer,
                after,
            ),
            _ => false,
        }
    }

    /// Authorizes a claimed candidate with a ledger that answers at once. A
    /// local refusal leaves the ledger alone; any other candidate is asked for
    /// once.
    pub fn authorize_claimed_candidate(
        &mut self,
        board: &mut ProbeBoard,
        candidate: &PaidProbeCandidate,
    ) -> (outcome: PaidProbeOutcome<P>)
        ensures
            match old(self).local_refusal(*old(board), *candidate) {
                Some(why) => {
                    &&& outcome == PaidProbeOutcome::<P>::Refused(why)
                    &&& *final(board) == *old(board)
                    &&& *final(self) == *old(self)
                },
                None => exists|reply: ReservationReply|
                    old(self).may_reply(
                        candidate.key.state_key@,
                        reply,
                        final(self).paid_probe_ledger,
                    ) && #[trigger] old(self).answered(
                        *old(board),
                        *candidate,
                        reply,
                        outcome,
                        *final(board),
                    ),
            },
            *final(self) == (Router {
                paid_probe_ledger: final(self).paid_probe_ledger,
                ..*old(self)
            }),
    {
        match self.begin_authorization(board, candidate) {
            AuthorizationStep::Refused(why) => PaidProbeOutcome::Refused(why),
            AuthorizationStep::Reserve(pending) => {
                let answer = self.reserve_paid_probe_unit(
                    pending.provider_name(),
                    pending.daily_cap(),
                );
                let ghost terms = pending;
                let outcome = self.settle_authorization(
                    board,
                    pending,
                    ReservationReply::Answered(answer),
                );
                assert(old(self).on_terms(terms, candidate.key.state_key@));
                assert(old(self).answered(
                    *old(board),
                    *candidate,
                    ReservationReply::Answered(answer),
                    outcome,
                    *board,
                ));
                outcome
            },
        }
    }

    /// Authorizes one paid call with a ledger that answers at once: claims the
    /// candidate that has waited longest, checks it, asks the ledger once where
    /// nothing local speaks against it, and puts it back where that is in
    /// order.
    pub fn authorize_paid_probe(&mut self, board: &mut ProbeBoard) -> (outcome: PaidProbeOutcome<P>)
        requires
            old(board).wf(),
        ensures
            final(board).wf(),
            if old(board).candidates@.len() == 0 {
                &&& outcome == PaidProbeOutcome::<P>::Refused(PaidProbeRefusal::NoCandidate)
                &&& *final(board) == *old(board)
                &&& *final(self) == *old(self)
            } else {
                let candidate = old(board).candidates@[0];
                let rest = old(board).candidates@.drop_first();
                let unqueued = ProbeBoard {
                    candidates: old(board).candidates,
                    ..*final(board)
                };
                &&& match old(self).local_refusal(*old(board), candidate) {
                    Some(why) => {
                        &&& outcome == PaidProbeOutcome::<P>::Refused(why)
                        &&& unqueued == *old(board)
                        &&& *final(self) == *old(self)
                    },
                    None => exists|reply: ReservationReply|
                        old(self).may_reply(
                            candidate.key.state_key@,
                            reply,
                            final(self).paid_probe_ledger,
                        ) && #[trigger] old(self).answered(
                            *old(board),
                            candidate,
                            reply,
                            outcome,
                            unqueued,
                        ),
                }
                &&& final(board).candidates@ == (match outcome {
                    PaidProbeOutcome::Refused(why) => if why.recoverable() && old(self).current(
                        *old(board),
                    ) {
                        rest.push(candidate)
                    } else {
                        rest
                    },
                    PaidProbeOutcome::Authorized(_) => rest,
                })
            },
            *final(self) == (Router {
                paid_probe_ledger: final(self).paid_probe_ledger,
                ..*old(self)
            }),
    {
        let candidate = match self.claim_paid_probe_candidate(board) {
            Some(candidate) => candidate,
            None => {
                return PaidProbeOutcome::Refused(PaidProbeRefusal::NoCandidate);
            },
        };
        let ghost claimed = *board;
        let outcome = self.authorize_claimed_candidate(board, &candidate);
        let ghost settled = *board;
        assert(!waits(claimed.candidates@, candidate)) by {
            let queue = old(board).candidates@;
            if waits(claimed.candidates@, candidate) {
                let i = choose|i: int|
                    0 <= i < claimed.candidates@.len() && (
                    #[trigger] claimed.candidates@[i]).same_record(candidate);
                assert(claimed.candidates@[i] == queue[i + 1]);
                assert(queue[i + 1].same_record(queue[0]));
            }
        }
        self.finish_pass(board, candidate, &outcome);
        proof {
            let unqueued = ProbeBoard { candidates: old(board).candidates, ..*board };
            if old(self).local_refusal(*old(board), candidate) is None {
                let reply = choose|reply: ReservationReply|
                    old(self).may_reply(
                        candidate.key.state_key@,
                        reply,
                        self.paid_probe_ledger,
                    ) && #[trigger] old(self).answered(
                        claimed,
                        candidate,
                        reply,
                        outcome,
                        settled,
                    );
                assert(old(self).answered(*old(board), candidate, reply, outcome, unqueued));
            }
        }
        outcome
    }
}

impl<P, L> Router<P, L> {
    /// What an authorization came to once the ledger replied, for a candidate
    /// that passed the checks.
    pub open spec fn answered(
        &self,
        before: ProbeBoard,
        candidate: PaidProbeCandidate,
        reply: ReservationReply,
        outcome: PaidProbeOutcome<P>,
        after: ProbeBoard,
    ) -> bool {
        &&& match outcome {
            PaidProbeOutcome::Refused(why) => {
                &&& reply_refusal(reply, self.current(before)) == Some(why)
                &&& after.in_flight == before.in_flight
            },
            PaidProbeOutcome::Authorized(auth) => {
                &&& reply_refusal(reply, self.current(before)) is None
                &&& after.in_flight == before.in_flight + 1
                &&& authorizes(*auth, candidate)
                &&& paid_by(*auth, reply)
                &&& describes(
                    auth.target(),
                    *self.config,
                    self.resolved_models@,
                    candidate.key.state_key@,
                    sole_seat(self.resolved_models@, candidate.key.state_key@)->0,
                )
                &&& self.lane_sizing(candidate.key.state_key@) == Some(
                    (auth.size().allowance(), auth.size().ceiling()),
                )
            },
        }
        &&& after == (ProbeBoard {
            in_flight: after.in_flight,
            reservations_committed_total: committed_after(
                before.reservations_committed_total,
                reply,
            ),
            ..before
        })
    }
}

} // verus!
