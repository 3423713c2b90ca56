//! Making the one call that an authorization pays for.
//!
//! The call is made once: it is not retried, and no other seat is tried. The
//! unit is spent whatever comes of it. The authorization, and with it its
//! slot, is held until the pass is settled.

use vstd::prelude::*;

use crate::paid_probe_authorize::same_but_in_flight;
use crate::paid_probe_authorize::PaidProbeAuthorization;
use crate::paid_probe_authorize::PaidProbeOutcome;
use crate::paid_probe_authorize::PaidProbeRefusal;
use crate::paid_probe_authorize::PaidProbeSlot;
use crate::probe::ProbeBoard;
use crate::probe::ProbePayload;
use crate::probe_failure_class::paid_class;
use crate::probe_failure_class::paid_failure_for_class;
use crate::probe_failure_class::FailureClass;
use crate::probe_failure_class::PaidProbeFailure;
use crate::probe_seat::ProbeSeat;
use crate::request::ChatRequest;
use crate::router::Router;
use crate::text::copy_list;

verus! {

/// Event name of the settlement line.
pub const PAID_PROBE_DIAL_EVENT: &'static str = "paid_probe_dial_settled";

/// The output allowance of a probe body that none was set on.
pub const FREE_PROBE_MAX_TOKENS: u32 = 2048;

/// The one turn of a probe body.
pub const PROBE_TURN: &'static str = "ping";

/// What the one paid call established. Its unit is spent in every case.
#[derive(Clone, Copy, PartialEq, Eq, Structural, Debug)]
pub enum PaidProbeDialOutcome {
    /// The upstream answered.
    Completed,
    /// The upstream refused or failed, and how.
    ProviderFailed(PaidProbeFailure),
    /// The runtime gate declined before any call.
    GateDeferred,
    /// The upstream did not answer in time.
    TimedOut,
}

impl PaidProbeDialOutcome {
    /// The log token of an outcome.
    pub open spec fn token(self) -> Seq<char> {
        match self {
            PaidProbeDialOutcome::Completed => "completed"@,
            PaidProbeDialOutcome::ProviderFailed(_) => "provider_failed"@,
            PaidProbeDialOutcome::GateDeferred => "gate_deferred"@,
            PaidProbeDialOutcome::TimedOut => "timed_out"@,
        }
    }

    /// The log token of the outcome.
    pub fn as_str(self) -> (token: &'static str)
        ensures
            token@ == self.token(),
    {
        match self {
            PaidProbeDialOutcome::Completed => "completed",
            PaidProbeDialOutcome::ProviderFailed(_) => "provider_failed",
            PaidProbeDialOutcome::GateDeferred => "gate_deferred",
            PaidProbeDialOutcome::TimedOut => "timed_out",
        }
    }

    /// How the upstream failed, where it did.
    pub open spec fn failure_class(self) -> Option<PaidProbeFailure> {
        match self {
            PaidProbeDialOutcome::ProviderFailed(failure) => Some(failure),
            _ => None,
        }
    }

    /// How the upstream failed, where it did.
    pub fn failure(self) -> (failure: Option<PaidProbeFailure>)
        ensures
            failure == self.failure_class(),
    {
        match self {
            PaidProbeDialOutcome::ProviderFailed(failure) => Some(failure),
            PaidProbeDialOutcome::Completed => None,
            PaidProbeDialOutcome::GateDeferred => None,
            PaidProbeDialOutcome::TimedOut => None,
        }
    }
}

/// What one whole paid pass did.
#[derive(Clone, Copy, PartialEq, Eq, Structural, Debug)]
pub enum PaidProbePass {
    /// A unit was committed, and the call was made or its runtime gate declined it.
    Dialed(PaidProbeDialOutcome),
    /// No call was authorized.
    Refused(PaidProbeRefusal),
}

/// What came of the call.
pub enum DialAnswer {
    /// The upstream did not answer in time.
    TimedOut,
    /// The upstream answered.
    Answered,
    /// The upstream failed.
    Failed(FailureClass),
}

/// What the settlement line of a pass says: the accounting and the closed
/// tokens, and nothing of the request or of its answer.
pub struct DialSettlement {
    /// The outcome of the pass.
    pub outcome: PaidProbeDialOutcome,
    /// The token of the outcome.
    pub outcome_token: &'static str,
    /// The token of the failure; empty where there was none.
    pub failure_token: &'static str,
    /// The publication that the permission was granted under.
    pub incarnation: u64,
    /// Units committed for the provider's current day.
    pub committed_used: u32,
    /// The cap that they were committed under.
    pub committed_cap: u32,
}

/// What a call came to, by its answer.
pub open spec fn answer_outcome(answer: DialAnswer) -> PaidProbeDialOutcome {
    match answer {
        DialAnswer::TimedOut => PaidProbeDialOutcome::TimedOut,
        DialAnswer::Answered => PaidProbeDialOutcome::Completed,
        DialAnswer::Failed(class) => PaidProbeDialOutcome::ProviderFailed(paid_class(class)),
    }
}

/// Whether a body is the probe of this payload at this seat, and nothing
/// besides.
pub open spec fn probes<P>(
    body: ChatRequest,
    seat: ProbeSeat<P>,
    payload: ProbePayload,
    max_tokens: u32,
) -> bool {
    &&& body.model == seat.upstream
    &&& body.messages@.len() == 1
    &&& body.messages@[0]@ == PROBE_TURN@
    &&& body.reasoning
    &&& body.max_tokens == Some(max_tokens)
    &&& body.anthropic_beta@ == payload.client_betas@
    &&& body.routectl_internal.operator_betas@ == payload.operator_betas@
    &&& body.routectl_internal.anthropic_thinking_display == Some(payload.value)
    &&& body.routectl_internal.originating_claude_code_session == Some(payload.claude_code_session)
    &&& body.routectl_internal.background_probe
    &&& body.routectl_internal.carries_nothing()
    &&& body.system is None
    &&& body.tools is None
    &&& body.provider_extras is None
}

/// The body of a probe: the seat's wire id, the captured value of the field,
/// each set of beta flags on its own carrier, and the given allowance, or the
/// free one where none is given.
pub fn build_probe_request<P>(
    seat: &ProbeSeat<P>,
    payload: &ProbePayload,
    max_tokens: Option<u32>,
) -> (body: ChatRequest)
    ensures
        probes(
            body,
            *seat,
            *payload,
            match max_tokens {
                Some(tokens) => tokens,
                None => FREE_PROBE_MAX_TOKENS,
            },
        ),
{
    let mut body = ChatRequest::for_model(seat.upstream.as_str());
    body.model = seat.upstream.clone();
    body.messages.push(PROBE_TURN.to_owned());
    body.reasoning = true;
    body.max_tokens = Some(
        match max_tokens {
            Some(tokens) => tokens,
            None => FREE_PROBE_MAX_TOKENS,
        },
    );
    body.anthropic_beta = copy_list(&payload.client_betas);
    body.routectl_internal.operator_betas = copy_list(&payload.operator_betas);
    body.routectl_internal.anthropic_thinking_display = Some(payload.value.clone());
    body.routectl_internal.originating_claude_code_session = Some(payload.claude_code_session);
    body.routectl_internal.background_probe = true;
    body
}

/// A call that was begun: the authorization that pays for it, spent on the one
/// body that was handed out with it. Only [`Router::begin_dial`] makes one.
pub struct DialInFlight<P> {
    authorization: PaidProbeAuthorization<P>,
}

impl<P> DialInFlight<P> {
    /// The authorization that pays for the call.
    pub closed spec fn paid_by(self) -> PaidProbeAuthorization<P> {
        self.authorization
    }

    /// Gives the slot back without an answer, ending the call.
    pub fn abandon(self) -> (slot: PaidProbeSlot)
        ensures
            slot == self.paid_by().held_slot(),
    {
        self.authorization.into_slot()
    }
}

/// What becomes of an authorization. Either way it is gone: one committed unit
/// gives one body at most.
pub enum DialStep<P> {
    /// The runtime gate declined: no call is made and the pass is settled.
    Deferred(DialSettlement),
    /// This body is to be sent, once.
    Call(ChatRequest, DialInFlight<P>),
}

/// What a whole pass comes to before any call is made.
pub enum PassStep<P> {
    /// The pass is over; its settlement, where a unit was committed.
    Over(PaidProbePass, Option<DialSettlement>),
    /// This body is to be sent, once.
    Call(ChatRequest, DialInFlight<P>),
}

/// Second step of a call: what its answer established.
pub fn read_answer(answer: &DialAnswer) -> (outcome: PaidProbeDialOutcome)
    ensures
        outcome == answer_outcome(*answer),
{
    match answer {
        DialAnswer::TimedOut => PaidProbeDialOutcome::TimedOut,
        DialAnswer::Answered => PaidProbeDialOutcome::Completed,
        DialAnswer::Failed(class) => PaidProbeDialOutcome::ProviderFailed(
            paid_failure_for_class(class),
        ),
    }
}

/// Whether a settlement is that of this authorization and outcome.
pub open spec fn settles<P>(
    settlement: DialSettlement,
    authorization: PaidProbeAuthorization<P>,
    outcome: PaidProbeDialOutcome,
) -> bool {
    &&& settlement.outcome == outcome
    &&& settlement.outcome_token@ == outcome.token()
    &&& settlement.failure_token@ == (match outcome.failure_class() {
        Some(failure) => failure.token(),
        None => ""@,
    })
    &&& settlement.incarnation == authorization.granted_under()
    &&& settlement.committed_used == authorization.units().used_units()
    &&& settlement.committed_cap == authorization.units().cap_units()
}

impl<P, L> Router<P, L> {
    /// Settles a pass: ends the authorization, gives its slot back, and says
    /// what the settlement line holds.
    fn settled(
        &self,
        board: &mut ProbeBoard,
        authorization: PaidProbeAuthorization<P>,
        outcome: PaidProbeDialOutcome,
    ) -> (settlement: DialSettlement)
        requires
            old(board).in_flight > 0,
        ensures
            settles(settlement, authorization, outcome),
            final(board).in_flight == old(board).in_flight - 1,
            same_but_in_flight(*final(board), *old(board)),
    {
        let failure_token: &'static str = match outcome.failure() {
            Some(failure) => failure.as_str(),
            None => "",
        };
        let settlement = DialSettlement {
            outcome,
            outcome_token: outcome.as_str(),
            failure_token,
            incarnation: authorization.incarnation(),
            committed_used: authorization.committed().used(),
            committed_cap: authorization.committed().cap(),
        };
        board.release_paid_slot(authorization.into_slot());
        settlement
    }

    /// First step of a call: what to send. The authorization is taken, and
    /// everything that is sent comes out of it. Where the runtime gate declined
    /// nothing is sent and the pass is settled.
    pub fn begin_dial(
        &self,
        board: &mut ProbeBoard,
        authorization: PaidProbeAuthorization<P>,
        gate_declined: bool,
    ) -> (step: DialStep<P>)
        requires
            old(board).in_flight > 0,
        ensures
            match step {
                DialStep::Deferred(settlement) => {
                    &&& gate_declined
                    &&& settles(settlement, authorization, PaidProbeDialOutcome::GateDeferred)
                    &&& final(board).in_flight == old(board).in_flight - 1
                    &&& same_but_in_flight(*final(board), *old(board))
                },
                DialStep::Call(body, in_flight) => {
                    &&& !gate_declined
                    &&& in_flight.paid_by() == authorization
                    &&& probes(
                        body,
                        authorization.target(),
                        authorization.question(),
                        authorization.size().allowance(),
                    )
                    &&& *final(board) == *old(board)
                },
            },
    {
        if gate_declined {
            return DialStep::Deferred(
                self.settled(board, authorization, PaidProbeDialOutcome::GateDeferred),
            );
        }
        let body = build_probe_request(
            authorization.seat(),
            authorization.payload(),
            Some(authorization.profile().max_tokens()),
        );
        DialStep::Call(body, DialInFlight { authorization })
    }

    /// Second step of a call: reads its answer and settles the pass.
    pub fn dial_paid_probe(
        &self,
        board: &mut ProbeBoard,
        in_flight: DialInFlight<P>,
        answer: &DialAnswer,
    ) -> (settlement: DialSettlement)
        requires
            old(board).in_flight > 0,
        ensures
            settles(settlement, in_flight.paid_by(), answer_outcome(*answer)),
            final(board).in_flight == old(board).in_flight - 1,
            same_but_in_flight(*final(board), *old(board)),
    {
        self.settled(board, in_flight.authorization, read_answer(answer))
    }

    /// Begins a whole pass from what its authorization came to: a refusal
    /// stands as it is, and an authorization is dialed.
    pub fn begin_paid_pass(
        &self,
        board: &mut ProbeBoard,
        outcome: PaidProbeOutcome<P>,
        gate_declined: bool,
    ) -> (step: PassStep<P>)
        requires
            outcome is Authorized ==> old(board).in_flight > 0,
        ensures
            match outcome {
                PaidProbeOutcome::Refused(why) => {
                    &&& step == PassStep::<P>::Over(PaidProbePass::Refused(why), None)
                    &&& *final(board) == *old(board)
                },
                PaidProbeOutcome::Authorized(authorization) => match step {
                    PassStep::Over(pass, settlement) => {
                        &&& gate_declined
                        &&& pass == PaidProbePass::Dialed(PaidProbeDialOutcome::GateDeferred)
                        &&& settlement is Some
                        &&& settles(
                            settlement->0,
                            *authorization,
                            PaidProbeDialOutcome::GateDeferred,
                        )
                        &&& final(board).in_flight == old(board).in_flight - 1
                        &&& same_but_in_flight(*final(board), *old(board))
                    },
                    PassStep::Call(body, in_flight) => {
                        &&& !gate_declined
                        &&& in_flight.paid_by() == *authorization
                        &&& probes(
                            body,
                            authorization.target(),
                            authorization.question(),
                            authorization.size().allowance(),
                        )
                        &&& *final(board) == *old(board)
                    },
                },
            },
    {
        match outcome {
            PaidProbeOutcome::Refused(why) => PassStep::Over(PaidProbePass::Refused(why), None),
            PaidProbeOutcome::Authorized(authorization) => {
                match self.begin_dial(board, *authorization, gate_declined) {
                    DialStep::Deferred(settlement) => PassStep::Over(
                        PaidProbePass::Dialed(settlement.outcome),
                        Some(settlement),
                    ),
                    DialStep::Call(body, in_flight) => PassStep::Call(body, in_flight),
                }
            },
        }
    }

    /// Ends a whole pass whose call was made.
    pub fn finish_paid_pass(
        &self,
        board: &mut ProbeBoard,
        in_flight: DialInFlight<P>,
        answer: &DialAnswer,
    ) -> (out: (PaidProbePass, DialSettlement))
        requires
            old(board).in_flight > 0,
        ensures
            out.0 == PaidProbePass::Dialed(answer_outcome(*answer)),
            settles(out.1, in_flight.paid_by(), answer_outcome(*answer)),
            final(board).in_flight == old(board).in_flight - 1,
            same_but_in_flight(*final(board), *old(board)),
    {
        let settlement = self.dial_paid_probe(board, in_flight, answer);
        (PaidProbePass::Dialed(settlement.outcome), settlement)
    }
}

} // verus!
