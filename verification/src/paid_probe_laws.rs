//! Laws of one paid probe from seat to settlement: what a lane names, what it
//! may cost, what speaks against it, and what is sent and written down.

use std::sync::Arc;

use vstd::prelude::*;

use crate::config::Config;
use crate::paid_probe_authorize::authorizes;
use crate::paid_probe_authorize::committed_after;
use crate::paid_probe_authorize::grants;
use crate::paid_probe_authorize::paid_by;
use crate::paid_probe_authorize::redacted_to;
use crate::paid_probe_authorize::reply_refusal;
use crate::paid_probe_authorize::same_but_in_flight;
use crate::paid_probe_authorize::CommittedUnits;
use crate::paid_probe_authorize::PaidProbeAuthorization;
use crate::paid_probe_authorize::PaidProbeOutcome;
use crate::paid_probe_authorize::PaidProbeRefusal;
use crate::paid_probe_authorize::PendingReservation;
use crate::paid_probe_authorize::RedactedAuthorization;
use crate::paid_probe_authorize::ReservationReply;
use crate::paid_probe_authorize::PAID_PROBE_RESERVATION_TIMEOUT_SECS;
use crate::paid_probe_dial::answer_outcome;
use crate::paid_probe_dial::probes;
use crate::paid_probe_dial::settles;
use crate::paid_probe_dial::DialAnswer;
use crate::paid_probe_dial::DialSettlement;
use crate::paid_probe_dial::PaidProbeDialOutcome;
use crate::paid_probe_dial::FREE_PROBE_MAX_TOKENS;
use crate::paid_probe_ledger::PaidProbeLedger;
use crate::paid_probe_ledger::PaidProbeReservation;
use crate::paid_probe_profile::ceiling_in_effect;
use crate::paid_probe_profile::usable_rate;
use crate::paid_probe_profile::PaidProbeProfile;
use crate::paid_probe_profile::ADAPTIVE_MIN_VIABLE_MAX_TOKENS;
use crate::paid_probe_profile::LEGACY_MIN_VIABLE_MAX_TOKENS;
use crate::probe::lane_queued;
use crate::probe::waits;
use crate::probe::FieldVerdictKey;
use crate::probe::PaidProbeCandidate;
use crate::probe::ProbeBoard;
use crate::probe::ProbePayload;
use crate::probe::PROBE_MAX_CONCURRENCY;
use crate::probe::PROBE_QUEUE_DEPTH;
use crate::probe_failure_class::paid_class;
use crate::probe_failure_class::FailureClass;
use crate::probe_failure_class::PaidProbeFailure;
use crate::probe_seat::describes;
use crate::probe_seat::names_only;
use crate::probe_seat::names_seat;
use crate::probe_seat::seat_provider;
use crate::probe_seat::sole_seat;
use crate::probe_seat::ProbeSeat;
use crate::request::ChatRequest;
use crate::resolved::ResolvedModel;
use crate::router::Router;

verus! {

// ---------------------------------------------------------------------------
// Seats
// ---------------------------------------------------------------------------

/// The `[providers]` key of the `j`-th seat of the `i`-th model: the member's
/// for a pooled model, and the model's own for one without a pool.
pub open spec fn key_of_seat<P>(
    models: Seq<(Seq<char>, Arc<ResolvedModel<P>>)>,
    i: int,
    j: int,
) -> Seq<char> {
    if models[i].1.seats is Some {
        models[i].1.seats->0@[j].provider_name@
    } else {
        models[i].1.provider_name@
    }
}

/// Whether there is a `j`-th seat of the `i`-th model, and it goes by this
/// state key.
pub open spec fn goes_by<P>(
    models: Seq<(Seq<char>, Arc<ResolvedModel<P>>)>,
    i: int,
    j: int,
    state_key: Seq<char>,
) -> bool {
    &&& 0 <= i < models.len()
    &&& models[i].1.seats is None ==> j == 0 && state_key == models[i].0
    &&& models[i].1.seats is Some ==> 0 <= j < models[i].1.seats->0@.len() && state_key
        == models[i].0 + seq!['#'] + models[i].1.seats->0@[j].provider_name@
}

/// A lane has a seat exactly if one seat goes by its state key, and no other
/// does; then it is that seat.
pub proof fn law_lane_names_one_seat<P>(
    models: Seq<(Seq<char>, Arc<ResolvedModel<P>>)>,
    state_key: Seq<char>,
    i: int,
    j: int,
)
    ensures
        sole_seat(models, state_key) == Some((i, j)) <==> goes_by(models, i, j, state_key) && (
        forall|a: int, b: int| #[trigger]
            goes_by(models, a, b, state_key) ==> a == i && b == j),
        goes_by(models, i, j, state_key) && sole_seat(models, state_key) is None ==> exists|
            a: int,
            b: int,
        | #[trigger]
            goes_by(models, a, b, state_key) && (a != i || b != j),
{
    assert forall|a: int, b: int| #[trigger] goes_by(models, a, b, state_key) == names_seat(
        models,
        state_key,
        a,
        b,
    ) by {}
    assert forall|a: int, b: int| #[trigger] names_seat(models, state_key, a, b) == goes_by(
        models,
        a,
        b,
        state_key,
    ) by {}
    if exists|a: int, b: int| #[trigger] names_only(models, state_key, a, b) {
        let (a, b) = choose|a: int, b: int| #[trigger] names_only(models, state_key, a, b);
        assert(names_only(models, state_key, a, b));
        assert(goes_by(models, a, b, state_key));
    }
    if goes_by(models, i, j, state_key) && (forall|a: int, b: int| #[trigger]
        goes_by(models, a, b, state_key) ==> a == i && b == j) {
        assert(names_only(models, state_key, i, j));
    }
    if goes_by(models, i, j, state_key) && sole_seat(models, state_key) is None {
        assert(!names_only(models, state_key, i, j));
        let (a, b) = choose|a: int, b: int| #[trigger]
            names_seat(models, state_key, a, b) && (a != i || b != j);
        assert(goes_by(models, a, b, state_key));
    }
}

/// What describes a seat is of that seat and its model: the member's key and
/// provider for a pooled model, and the kind of the entry under that key.
pub proof fn law_seat_described<P>(
    out: ProbeSeat<P>,
    config: Config,
    models: Seq<(Seq<char>, Arc<ResolvedModel<P>>)>,
    state_key: Seq<char>,
    i: int,
    j: int,
)
    requires
        describes(out, config, models, state_key, (i, j)),
    ensures
        ({
            let model = models[i].1;
            let name = key_of_seat(models, i, j);
            let entries = config.providers.map();
            &&& seat_provider(models, (i, j)) == name
            &&& out.state_key@ == state_key
            &&& out.provider_name@ == name
            &&& model.seats is None ==> out.provider == model.provider
            &&& model.seats is Some ==> out.provider == model.seats->0@[j].provider
            &&& entries.dom().contains(name) ==> out.provider_kind is Some
                && out.provider_kind->0@ == entries[name].kind@
            &&& !entries.dom().contains(name) ==> out.provider_kind is None
            &&& out.upstream@ == model.upstream@
            &&& out.effective_row == model.effective_row
            &&& out.supports_adaptive_thinking == model.supports_adaptive_thinking
            &&& out.configured_output_ceiling == model.max_output_tokens
        }),
{
}

/// The key of a seat is that of the very account that serves it, and a
/// rejection by it can be attributed exactly if its entry says so.
pub proof fn law_seat_attributed<P, L>(
    router: Router<P, L>,
    i: int,
    j: int,
)
    ensures
        seat_provider(router.resolved_models@, (i, j)) == key_of_seat(
            router.resolved_models@,
            i,
            j,
        ),
        ({
            let name = key_of_seat(router.resolved_models@, i, j);
            let entries = router.config.providers.map();
            router.attributable(name) <==> entries.dom().contains(name)
                && entries[name].attributable
        }),
{
}

// ---------------------------------------------------------------------------
// Cap and size
// ---------------------------------------------------------------------------

/// The daily cap of a lane is what the table of caps holds under the key of the
/// one seat that the lane names, be it a member of a pool or a provider of its
/// own, and zero where it holds nothing under that very key. A lane that names
/// no seat alone has none.
pub proof fn law_cap_of_the_seat<P, L>(router: Router<P, L>, state_key: Seq<char>, i: int, j: int)
    ensures
        ({
            let caps = router.config.paid_probe_daily_caps.map();
            let name = key_of_seat(router.resolved_models@, i, j);
            let sole = sole_seat(router.resolved_models@, state_key);
            &&& sole == Some((i, j)) && caps.dom().contains(name) ==> router.daily_cap(state_key)
                == caps[name]
            &&& sole == Some((i, j)) && !caps.dom().contains(name) ==> router.daily_cap(state_key)
                == 0
            &&& sole is None ==> router.daily_cap(state_key) == 0
        }),
{
}

/// A rate is usable exactly if it is the bit pattern of a positive finite
/// number: sign zero, exponent not all ones, and not zero altogether.
pub proof fn law_usable_rate(bits: u32)
    ensures
        usable_rate(Some(bits)) <==> bits != 0 && bits <= 0x7f7f_ffff,
        !usable_rate(None),
{
}

/// The ceiling in effect is the lower of the catalog's and the configured one,
/// a configured zero meaning none.
pub proof fn law_lower_ceiling(catalog: u32, configured: u32)
    ensures
        ({
            let out = ceiling_in_effect(catalog, configured);
            &&& out <= catalog
            &&& configured != 0 ==> out <= configured
            &&& out == catalog || (configured != 0 && out == configured)
        }),
{
}

/// A probe of a lane can be sized exactly if the catalog cell of its model is in
/// force, states a ceiling above zero and prices input and output, the entry
/// under the seat's own key speaks the Anthropic API, and the lower of the
/// stated and the configured ceiling leaves room. The allowance is one token
/// for the adaptive thinking shape and 1025 for the legacy one.
pub proof fn law_size_of_a_probe<P, L>(router: Router<P, L>, state_key: Seq<char>, i: int, j: int)
    requires
        sole_seat(router.resolved_models@, state_key) == Some((i, j)),
    ensures
        ({
            let model = router.resolved_models@[i].1;
            let entries = router.config.providers.map();
            let name = key_of_seat(router.resolved_models@, i, j);
            let cell = model.effective_row->Present_0;
            let stated = cell.max_output_tokens->0;
            let configured = model.max_output_tokens;
            let allowance: u32 = if model.supports_adaptive_thinking {
                1
            } else {
                1025
            };
            let ceiling = if configured != 0 && configured < stated {
                configured
            } else {
                stated
            };
            let fits = model.effective_row is Present && cell.max_output_tokens is Some && stated
                > 0 && usable_rate(cell.input_cost_per_token) && usable_rate(
                cell.output_cost_per_token,
            ) && entries.dom().contains(name) && entries[name].kind@ == "anthropic-api"@
                && allowance <= ceiling;
            &&& fits ==> router.lane_sizing(state_key) == Some((allowance, ceiling))
            &&& !fits ==> router.lane_sizing(state_key) is None
        }),
{
}

/// A lane that names no seat alone cannot be sized.
pub proof fn law_no_seat_no_size<P, L>(router: Router<P, L>, state_key: Seq<char>)
    requires
        sole_seat(router.resolved_models@, state_key) is None,
    ensures
        router.lane_sizing(state_key) is None,
        router.daily_cap(state_key) == 0,
{
}

// ---------------------------------------------------------------------------
// Refusals
// ---------------------------------------------------------------------------

/// What speaks against a candidate without the ledger, each reason exactly
/// where none before it holds: a stale publication, no one seat, an entry that
/// nothing can be attributed to, no cap under the seat's own key, no size, no
/// ledger, no free slot, and a publication that is no longer in force.
pub proof fn law_local_refusals<P, L>(
    router: Router<P, L>,
    board: ProbeBoard,
    candidate: PaidProbeCandidate,
    i: int,
    j: int,
)
    requires
        sole_seat(router.resolved_models@, candidate.key.state_key@) is Some ==> sole_seat(
            router.resolved_models@,
            candidate.key.state_key@,
        ) == Some((i, j)),
    ensures
        ({
            let key = candidate.key.state_key@;
            let name = key_of_seat(router.resolved_models@, i, j);
            let entries = router.config.providers.map();
            let caps = router.config.paid_probe_daily_caps.map();
            let why = router.local_refusal(board, candidate);
            let stale = candidate.incarnation != router.probe_incarnation;
            let seated = !stale && sole_seat(router.resolved_models@, key) is Some;
            let attributed = seated && entries.dom().contains(name) && entries[name].attributable;
            let capped = attributed && caps.dom().contains(name) && caps[name] > 0;
            let sized = capped && router.lane_sizing(key) is Some;
            let ledgered = sized && router.paid_probe_ledger is Some;
            let slotted = ledgered && board.in_flight < PROBE_MAX_CONCURRENCY;
            let current = slotted && router.probe_incarnation == board.ticket;
            &&& stale <==> why == Some(PaidProbeRefusal::StaleIncarnation)
            &&& !stale && !seated <==> why == Some(PaidProbeRefusal::NoSeat)
            &&& seated && !attributed <==> why == Some(PaidProbeRefusal::Unattributable)
            &&& attributed && !capped <==> why == Some(PaidProbeRefusal::CapZero)
            &&& capped && !sized <==> why == Some(PaidProbeRefusal::NoProfile)
            &&& sized && !ledgered <==> why == Some(PaidProbeRefusal::NoLedger)
            &&& ledgered && !slotted <==> why == Some(PaidProbeRefusal::NoConcurrencySlot)
            &&& slotted && !current <==> why == Some(PaidProbeRefusal::Superseded)
            &&& current <==> why is None
        }),
{
}

/// What a reply permits: a commit under a publication in force permits the
/// call, and any other reply refuses with what it was.
pub proof fn law_replies(answer: PaidProbeReservation, current: bool)
    ensures
        reply_refusal(ReservationReply::TimedOut, current) == Some(
            PaidProbeRefusal::ReservationTimeout,
        ),
        !(answer is Committed) ==> reply_refusal(ReservationReply::Answered(answer), current)
            == Some(PaidProbeRefusal::Accounting(answer)),
        answer is Committed && !current ==> reply_refusal(
            ReservationReply::Answered(answer),
            current,
        ) == Some(PaidProbeRefusal::Superseded),
        answer is Committed && current ==> reply_refusal(
            ReservationReply::Answered(answer),
            current,
        ) is None,
{
}

/// Every commit is counted, whatever comes of it, and nothing else is.
pub proof fn law_commits_counted(total: u64, answer: PaidProbeReservation)
    ensures
        committed_after(total, ReservationReply::TimedOut) == total,
        answer is Committed && total < u64::MAX ==> committed_after(
            total,
            ReservationReply::Answered(answer),
        ) == total + 1,
        answer is Committed && total == u64::MAX ==> committed_after(
            total,
            ReservationReply::Answered(answer),
        ) == 0,
        !(answer is Committed) ==> committed_after(total, ReservationReply::Answered(answer))
            == total,
{
}

/// A slot taken or given back changes nothing else on the board.
pub proof fn law_slots_change_nothing_else(after: ProbeBoard, before: ProbeBoard)
    requires
        same_but_in_flight(after, before),
    ensures
        after.ticket == before.ticket,
        after.shut_down == before.shut_down,
        after.candidates == before.candidates,
        after.lanes == before.lanes,
        after.capacity_refusals_total == before.capacity_refusals_total,
        after.reservations_committed_total == before.reservations_committed_total,
{
}

/// The ledger is asked for a unit of the provider under the seat's own key,
/// against what the table of caps holds under that key.
pub proof fn law_question_to_the_ledger<P, L: PaidProbeLedger>(
    router: Router<P, L>,
    state_key: Seq<char>,
    i: int,
    j: int,
    answer: PaidProbeReservation,
    after: Option<L>,
)
    requires
        sole_seat(router.resolved_models@, state_key) == Some((i, j)),
    ensures
        router.may_reply(state_key, ReservationReply::Answered(answer), after) <==> {
            let name = key_of_seat(router.resolved_models@, i, j);
            let caps = router.config.paid_probe_daily_caps.map();
            let cap = if caps.dom().contains(name) {
                caps[name]
            } else {
                0
            };
            &&& router.paid_probe_ledger is Some
            &&& after is Some
            &&& router.paid_probe_ledger->0.asked_once(name, cap, answer, &after->0)
        },
        !router.may_reply(state_key, ReservationReply::TimedOut, after),
{
}

// ---------------------------------------------------------------------------
// Authorizations
// ---------------------------------------------------------------------------

/// Two payloads are the same exactly if they hold the same in every part.
pub proof fn law_same_payload(a: ProbePayload, b: ProbePayload)
    ensures
        a.same(b) <==> a.path == b.path && a.value == b.value && a.client_betas@
            == b.client_betas@ && a.operator_betas@ == b.operator_betas@ && a.claude_code_session
            == b.claude_code_session,
{
}

/// What an authorization is bound to: the lane, the publication and the payload
/// of its candidate, and the units of its commit.
pub proof fn law_authorization_parts<P>(
    auth: PaidProbeAuthorization<P>,
    pending: PendingReservation<P>,
    candidate: PaidProbeCandidate,
    reply: ReservationReply,
)
    ensures
        authorizes(auth, candidate) ==> auth.lane() == candidate.key && auth.granted_under()
            == candidate.incarnation && auth.question().path@ == candidate.payload.path@
            && auth.question().value@ == candidate.payload.value@ && auth.question().client_betas@
            == candidate.payload.client_betas@ && auth.question().operator_betas@
            == candidate.payload.operator_betas@ && auth.question().claude_code_session
            == candidate.payload.claude_code_session,
        pending.is_for(candidate) ==> pending.lane() == candidate.key && pending.recorded_under()
            == candidate.incarnation && pending.question().path@ == candidate.payload.path@
            && pending.question().value@ == candidate.payload.value@
            && pending.question().client_betas@ == candidate.payload.client_betas@
            && pending.question().operator_betas@ == candidate.payload.operator_betas@
            && pending.question().claude_code_session == candidate.payload.claude_code_session,
        grants(auth, pending, reply) ==> auth.lane() == pending.lane() && auth.granted_under()
            == pending.recorded_under() && auth.question() == pending.question() && auth.target()
            == pending.target() && auth.size() == pending.size() && auth.held_slot()
            == pending.held_slot() && paid_by(auth, reply),
        paid_by(auth, reply) ==> reply is Answered && reply->Answered_0 is Committed
            && reply->Answered_0->used == auth.units().used_units() && reply->Answered_0->cap
            == auth.units().cap_units(),
{
}

/// What a pass leaves once the ledger replied: a refusal as the reply has it
/// and every slot as it was, or an authorization for the candidate, at the one
/// seat of its lane and of its size, paid for by the reply, with one slot
/// taken. Beyond the slot and the count of commits the board stays.
pub proof fn law_answered_pass<P, L>(
    router: Router<P, L>,
    before: ProbeBoard,
    candidate: PaidProbeCandidate,
    reply: ReservationReply,
    outcome: PaidProbeOutcome<P>,
    after: ProbeBoard,
)
    requires
        router.answered(before, candidate, reply, outcome, after),
    ensures
        outcome is Refused ==> reply_refusal(reply, router.probe_incarnation == before.ticket)
            == Some(outcome->Refused_0) && after.in_flight == before.in_flight,
        outcome is Authorized ==> {
            let auth = *outcome->Authorized_0;
            &&& reply_refusal(reply, router.probe_incarnation == before.ticket) is None
            &&& after.in_flight == before.in_flight + 1
            &&& authorizes(auth, candidate)
            &&& paid_by(auth, reply)
            &&& describes(
                auth.target(),
                *router.config,
                router.resolved_models@,
                candidate.key.state_key@,
                sole_seat(router.resolved_models@, candidate.key.state_key@)->0,
            )
            &&& router.lane_sizing(candidate.key.state_key@) == Some(
                (auth.size().allowance(), auth.size().ceiling()),
            )
        },
        after.ticket == before.ticket,
        after.shut_down == before.shut_down,
        after.candidates == before.candidates,
        after.lanes == before.lanes,
        after.capacity_refusals_total == before.capacity_refusals_total,
        after.reservations_committed_total == committed_after(
            before.reservations_committed_total,
            reply,
        ),
{
}

/// What a pending reservation is on: the one seat of the lane, its cap and its
/// size.
pub proof fn law_terms_of_a_reservation<P, L>(
    router: Router<P, L>,
    pending: PendingReservation<P>,
    state_key: Seq<char>,
    i: int,
    j: int,
)
    requires
        router.on_terms(pending, state_key),
    ensures
        sole_seat(router.resolved_models@, state_key) is Some,
        sole_seat(router.resolved_models@, state_key) == Some((i, j)) ==> {
            let name = key_of_seat(router.resolved_models@, i, j);
            let caps = router.config.paid_probe_daily_caps.map();
            &&& pending.target().provider_name@ == name
            &&& pending.target().state_key@ == state_key
            &&& pending.target().upstream@ == router.resolved_models@[i].1.upstream@
            &&& pending.cap() == (if caps.dom().contains(name) {
                caps[name]
            } else {
                0
            })
        },
        router.lane_sizing(state_key) == Some(
            (pending.size().allowance(), pending.size().ceiling()),
        ),
{
}

/// What is written of an authorization: its numbers, and of all else that it
/// was withheld.
pub proof fn law_redaction(
    out: RedactedAuthorization,
    incarnation: u64,
    units: CommittedUnits,
    size: PaidProbeProfile,
)
    requires
        redacted_to(out, incarnation, units, size),
    ensures
        out.incarnation == incarnation,
        out.committed_used == units.used_units(),
        out.committed_cap == units.cap_units(),
        out.max_tokens == size.allowance(),
        out.key@ == "<elided>"@,
        out.seat@ == "<elided>"@,
        out.payload@ == "<elided>"@,
        out.slot@ == "<elided>"@,
{
}

// ---------------------------------------------------------------------------
// The queue
// ---------------------------------------------------------------------------

/// Lanes are told apart by state key, path and provider kind, and candidates by
/// lane and publication.
pub proof fn law_told_apart(a: PaidProbeCandidate, b: PaidProbeCandidate)
    ensures
        a.key.identity() == b.key.identity() <==> a.key.state_key@ == b.key.state_key@
            && a.key.path@ == b.key.path@ && a.key.provider_kind@ == b.key.provider_kind@,
        a.same_record(b) <==> a.key.state_key@ == b.key.state_key@ && a.key.path@ == b.key.path@
            && a.key.provider_kind@ == b.key.provider_kind@ && a.incarnation == b.incarnation,
{
}

/// A candidate waits exactly if one of its lane and publication is queued, and
/// a lane is queued exactly if one of its identity is.
pub proof fn law_found_in_the_queue(
    queue: Seq<PaidProbeCandidate>,
    candidate: PaidProbeCandidate,
    lanes: Seq<FieldVerdictKey>,
)
    ensures
        waits(queue, candidate) <==> exists|i: int|
            0 <= i < queue.len() && (#[trigger] queue[i]).key.identity()
                == candidate.key.identity() && queue[i].incarnation == candidate.incarnation,
        lane_queued(lanes, candidate.key) <==> exists|i: int|
            0 <= i < lanes.len() && (#[trigger] lanes[i]).identity() == candidate.key.identity(),
{
    if waits(queue, candidate) {
        let i = choose|i: int| 0 <= i < queue.len() && (#[trigger] queue[i]).same_record(candidate);
        assert(queue[i].key.identity() == candidate.key.identity());
    }
    if exists|i: int|
        0 <= i < queue.len() && (#[trigger] queue[i]).key.identity() == candidate.key.identity()
            && queue[i].incarnation == candidate.incarnation {
        let i = choose|i: int|
            0 <= i < queue.len() && (#[trigger] queue[i]).key.identity()
                == candidate.key.identity() && queue[i].incarnation == candidate.incarnation;
        assert(queue[i].same_record(candidate));
    }
}

/// A candidate is put back behind the others exactly if it is of the router's
/// publication, that one is in force, it does not wait already, and there is
/// room; where only the room is missing the refusal is counted. Nothing else on
/// the board changes.
pub proof fn law_put_back<P, L>(
    router: Router<P, L>,
    before: ProbeBoard,
    candidate: PaidProbeCandidate,
    after: ProbeBoard,
)
    requires
        router.requeued(before, candidate, after),
    ensures
        ({
            let due = candidate.incarnation == router.probe_incarnation
                && router.probe_incarnation == before.ticket && !waits(
                before.candidates@,
                candidate,
            );
            let room = before.candidates@.len() < PROBE_QUEUE_DEPTH;
            &&& due && room ==> after.candidates@ == before.candidates@.push(candidate)
            &&& !(due && room) ==> after.candidates@ == before.candidates@
            &&& due && !room && before.capacity_refusals_total < u64::MAX
                ==> after.capacity_refusals_total == before.capacity_refusals_total + 1
            &&& !due || room ==> after.capacity_refusals_total == before.capacity_refusals_total
        }),
        after.ticket == before.ticket,
        after.shut_down == before.shut_down,
        after.lanes == before.lanes,
        after.in_flight == before.in_flight,
        after.reservations_committed_total == before.reservations_committed_total,
{
}

/// A router is current exactly if its stamp is the ticket.
pub proof fn law_current_by_ticket<P, L>(router: Router<P, L>, board: ProbeBoard)
    ensures
        router.current(board) <==> router.probe_incarnation == board.ticket,
{
}

/// A valid board keeps both bounds and holds no lane twice under one
/// publication.
pub proof fn law_valid_board(board: ProbeBoard, i: int, j: int)
    requires
        board.wf(),
    ensures
        board.candidates@.len() <= PROBE_QUEUE_DEPTH,
        board.in_flight <= PROBE_MAX_CONCURRENCY,
        0 <= i < j < board.candidates@.len() ==> board.candidates@[i].key.identity()
            != board.candidates@[j].key.identity() || board.candidates@[i].incarnation
            != board.candidates@[j].incarnation,
{
    if 0 <= i < j < board.candidates@.len() {
        assert(!board.candidates@[i].same_record(board.candidates@[j]));
    }
}

// ---------------------------------------------------------------------------
// The call
// ---------------------------------------------------------------------------

/// The body of a probe holds the wire id of the seat, one turn, the allowance,
/// the flags of client and operator each on its own carrier, and the value
/// under test; and nothing that a client or a target would add.
pub proof fn law_probe_body<P>(
    body: ChatRequest,
    seat: ProbeSeat<P>,
    payload: ProbePayload,
    max_tokens: u32,
)
    requires
        probes(body, seat, payload, max_tokens),
    ensures
        body.model@ == seat.upstream@,
        body.messages@.len() == 1,
        body.messages@[0]@ == "ping"@,
        body.reasoning,
        body.max_tokens == Some(max_tokens),
        body.system is None,
        body.tools is None,
        body.provider_extras is None,
        body.anthropic_beta@ == payload.client_betas@,
        ({
            let inner = body.routectl_internal;
            &&& inner.operator_betas@ == payload.operator_betas@
            &&& inner.anthropic_thinking_display is Some
            &&& inner.anthropic_thinking_display->0@ == payload.value@
            &&& inner.originating_claude_code_session == Some(payload.claude_code_session)
            &&& inner.background_probe
            &&& inner.reasoning_dialect is None
            &&& inner.history_reasoning is None
            &&& inner.claude_code_headers@.len() == 0
            &&& inner.provenance is Library
            &&& inner.header_extras is None
            &&& inner.inbound_session_key is None
            &&& inner.forwarded_bearer is None
            &&& inner.stainless_headers@.len() == 0
            &&& inner.responses_input_passthrough@.len() == 0
            &&& !inner.supports_adaptive_thinking
            &&& inner.effort_levels@.len() == 0
            &&& inner.max_thinking_budget == 0
            &&& inner.max_output_tokens == 0
        }),
{
}

/// What a failed upstream says of the field under test.
pub proof fn law_failure_classes(class: FailureClass)
    ensures
        paid_class(class) is CapabilityRejected <==> class is FeatureUnsupported,
        paid_class(class) is AuthRejected <==> class is Auth,
        paid_class(class) is Throttled <==> class is RateLimited || class is Overloaded,
        paid_class(class) is Transient <==> class is ServerError || class is NetworkError
            || class is Timeout,
        paid_class(class) is RequestRefused <==> class is BadRequest || class is ContextWindow
            || class is ContentPolicy,
        paid_class(class) is Unclassified <==> class is Unknown,
{
}

/// What a call came to, by its answer.
pub proof fn law_answers(class: FailureClass)
    ensures
        answer_outcome(DialAnswer::TimedOut) is TimedOut,
        answer_outcome(DialAnswer::Answered) is Completed,
        answer_outcome(DialAnswer::Failed(class)) == PaidProbeDialOutcome::ProviderFailed(
            paid_class(class),
        ),
{
}

/// What the settlement line of a pass holds: the outcome and its token, the
/// token of the failure where there was one, and the accounting of the very
/// authorization that was spent.
pub proof fn law_settlement<P>(
    settlement: DialSettlement,
    auth: PaidProbeAuthorization<P>,
    outcome: PaidProbeDialOutcome,
    failure: PaidProbeFailure,
)
    requires
        settles(settlement, auth, outcome),
    ensures
        settlement.outcome == outcome,
        settlement.outcome_token@ == outcome.token(),
        outcome == PaidProbeDialOutcome::ProviderFailed(failure) ==> settlement.failure_token@
            == failure.token(),
        !(outcome is ProviderFailed) ==> settlement.failure_token@ == ""@,
        settlement.incarnation == auth.granted_under(),
        settlement.committed_used == auth.units().used_units(),
        settlement.committed_cap == auth.units().cap_units(),
{
}

// ---------------------------------------------------------------------------
// Tokens
// ---------------------------------------------------------------------------

/// Every reason has its own word in a log line.
pub proof fn law_tokens_spelled(answer: PaidProbeReservation)
    ensures
        PaidProbeReservation::CapExhausted.token() == "cap_exhausted"@,
        PaidProbeReservation::MalformedState.token() == "malformed_state"@,
        PaidProbeReservation::WriteFailed.token() == "write_failed"@,
        PaidProbeReservation::Overloaded.token() == "overloaded"@,
        PaidProbeReservation::Unavailable.token() == "unavailable"@,
        answer is Committed ==> answer.token() == "committed"@,
        PaidProbeRefusal::Accounting(answer).token() == answer.token(),
        PaidProbeRefusal::NoCandidate.token() == "no_candidate"@,
        PaidProbeRefusal::StaleIncarnation.token() == "stale_incarnation"@,
        PaidProbeRefusal::NoSeat.token() == "no_seat"@,
        PaidProbeRefusal::Unattributable.token() == "unattributable"@,
        PaidProbeRefusal::CapZero.token() == "cap_zero"@,
        PaidProbeRefusal::NoProfile.token() == "no_profile"@,
        PaidProbeRefusal::NoConcurrencySlot.token() == "no_concurrency_slot"@,
        PaidProbeRefusal::NoLedger.token() == "no_ledger"@,
        PaidProbeRefusal::Superseded.token() == "superseded"@,
        PaidProbeRefusal::ReservationTimeout.token() == "reservation_timeout"@,
{
}

/// Every outcome of a call and every class of failure has its own word.
pub proof fn law_outcome_tokens_spelled(failure: PaidProbeFailure)
    ensures
        PaidProbeDialOutcome::Completed.token() == "completed"@,
        PaidProbeDialOutcome::ProviderFailed(failure).token() == "provider_failed"@,
        PaidProbeDialOutcome::GateDeferred.token() == "gate_deferred"@,
        PaidProbeDialOutcome::TimedOut.token() == "timed_out"@,
        PaidProbeFailure::CapabilityRejected.token() == "capability_rejected"@,
        PaidProbeFailure::AuthRejected.token() == "auth_rejected"@,
        PaidProbeFailure::Throttled.token() == "throttled"@,
        PaidProbeFailure::Transient.token() == "transient"@,
        PaidProbeFailure::RequestRefused.token() == "request_refused"@,
        PaidProbeFailure::Unclassified.token() == "unclassified"@,
        PaidProbeDialOutcome::ProviderFailed(failure).failure_class() == Some(failure),
        PaidProbeDialOutcome::Completed.failure_class() is None,
        PaidProbeDialOutcome::GateDeferred.failure_class() is None,
        PaidProbeDialOutcome::TimedOut.failure_class() is None,
{
}

// ---------------------------------------------------------------------------
// The ledger and the limits
// ---------------------------------------------------------------------------

/// Asking the installed ledger is asking that very ledger once, for this
/// provider and against this cap; a router without one asks nobody.
pub proof fn law_installed_ledger_asked<P, L: PaidProbeLedger>(
    router: Router<P, L>,
    provider: Seq<char>,
    daily_cap: u32,
    answer: PaidProbeReservation,
    after: Option<L>,
)
    ensures
        router.ledger_asked(provider, daily_cap, answer, after) <==> router.paid_probe_ledger
            is Some && after is Some && router.paid_probe_ledger->0.asked_once(
            provider,
            daily_cap,
            answer,
            &after->0,
        ),
{
}

/// The ledger of a lane that names no seat alone is never asked.
pub proof fn law_no_seat_no_question<P, L: PaidProbeLedger>(
    router: Router<P, L>,
    state_key: Seq<char>,
    reply: ReservationReply,
    after: Option<L>,
)
    requires
        sole_seat(router.resolved_models@, state_key) is None,
    ensures
        !router.may_reply(state_key, reply, after),
{
}

/// A refused candidate is put back exactly where no unit can have been spent
/// and the reason can pass: every slot taken, a spent day, an overloaded
/// ledger, a failed write or unreadable state.
pub proof fn law_put_back_reasons(answer: PaidProbeReservation, why: PaidProbeRefusal)
    ensures
        PaidProbeRefusal::Accounting(answer).recoverable() <==> !(answer is Committed) && !(
        answer is Unavailable),
        PaidProbeRefusal::NoConcurrencySlot.recoverable(),
        !(why is Accounting) && !(why is NoConcurrencySlot) ==> !why.recoverable(),
{
}

/// The limits of paid probing.
pub proof fn law_limits()
    ensures
        PROBE_QUEUE_DEPTH == 64,
        PROBE_MAX_CONCURRENCY == 4,
        PAID_PROBE_RESERVATION_TIMEOUT_SECS == 5,
        FREE_PROBE_MAX_TOKENS == 2048,
        LEGACY_MIN_VIABLE_MAX_TOKENS == 1025,
        ADAPTIVE_MIN_VIABLE_MAX_TOKENS == 1,
{
}

} // verus!
