//! Laws of paid probes: what a publication and a shutdown put an end to, who
//! is asked next, and what permits a call.

use vstd::prelude::*;

use crate::paid_probe_authorize::authorizes;
use crate::paid_probe_authorize::grants;
use crate::paid_probe_authorize::redacted_to;
use crate::paid_probe_authorize::reply_refusal;
use crate::paid_probe_authorize::CommittedUnits;
use crate::paid_probe_authorize::PaidProbeAuthorization;
use crate::paid_probe_authorize::PaidProbeRefusal;
use crate::paid_probe_authorize::PendingReservation;
use crate::paid_probe_authorize::RedactedAuthorization;
use crate::paid_probe_authorize::ReservationReply;
use crate::paid_probe_dial::PaidProbeDialOutcome;
use crate::paid_probe_ledger::PaidProbeLedger;
use crate::paid_probe_ledger::PaidProbeReservation;
use crate::paid_probe_profile::ceiling_in_effect;
use crate::paid_probe_profile::sizing;
use crate::paid_probe_profile::PaidProbeProfile;
use crate::probe::waits;
use crate::probe::PaidProbeCandidate;
use crate::probe::ProbeBoard;
use crate::probe::PROBE_QUEUE_DEPTH;
use crate::probe_failure_class::paid_class;
use crate::probe_failure_class::FailureClass;
use crate::probe_failure_class::PaidProbeFailure;
use crate::probe_seat::describes;
use crate::probe_seat::seat_provider;
use crate::probe_seat::sole_seat;
use crate::resolved::EffectiveRow;
use crate::router::Router;

verus! {

// ---------------------------------------------------------------------------
// Publications
// ---------------------------------------------------------------------------

/// Whether a board followed another by a publication: the ticket moved on by
/// one and everything that waited was dropped.
pub open spec fn published(before: ProbeBoard, after: ProbeBoard) -> bool {
    &&& !before.shut_down
    &&& !after.shut_down
    &&& after.ticket == before.ticket + 1
    &&& after.candidates@.len() == 0
    &&& after.lanes@.len() == 0
}

/// Whether a board followed another by the shutdown.
pub open spec fn shut(before: ProbeBoard, after: ProbeBoard) -> bool {
    &&& !before.shut_down
    &&& after.shut_down
    &&& after.ticket == before.ticket + 1
    &&& after.candidates@.len() == 0
    &&& after.lanes@.len() == 0
}

/// The ticket decides among all routers: a publication supersedes every router
/// that was stamped before it, whose own stamp nothing rewrites.
pub proof fn law_publication_supersedes<P, L>(
    router: Router<P, L>,
    before: ProbeBoard,
    after: ProbeBoard,
)
    requires
        router.probe_incarnation <= before.ticket,
        published(before, after),
    ensures
        !router.current(after),
        router.probe_incarnation < after.ticket,
{
}

/// After the shutdown no router is current, and since no publication follows
/// it, none becomes current again.
pub proof fn law_shutdown_is_terminal<P, L>(
    router: Router<P, L>,
    before: ProbeBoard,
    after: ProbeBoard,
    later: ProbeBoard,
)
    requires
        router.probe_incarnation <= before.ticket,
        shut(before, after),
        later.shut_down,
        later.ticket == after.ticket,
    ensures
        !router.current(after),
        !router.current(later),
        !published(after, later),
{
}

/// Nothing that is put back outlives a clear, in whichever order the two take
/// the queue. Where the candidate is put back before the clear, the clear drops
/// it. Where it is put back after, the ticket has moved on and it is dropped.
pub proof fn law_requeue_cannot_outlive_a_clear<P, L>(
    router: Router<P, L>,
    candidate: PaidProbeCandidate,
    before: ProbeBoard,
    first: ProbeBoard,
    second: ProbeBoard,
)
    requires
        router.probe_incarnation <= before.ticket,
        ({
            ||| router.requeued(before, candidate, first) && (published(first, second) || shut(
                first,
                second,
            ))
            ||| (published(before, first) || shut(before, first)) && router.requeued(
                first,
                candidate,
                second,
            )
        }),
    ensures
        second.candidates@.len() == 0,
{
}

/// A candidate of another publication is never put back.
pub proof fn law_stale_candidate_dropped<P, L>(
    router: Router<P, L>,
    candidate: PaidProbeCandidate,
    before: ProbeBoard,
    after: ProbeBoard,
)
    requires
        router.requeued(before, candidate, after),
        candidate.incarnation != before.ticket || candidate.incarnation
            != router.probe_incarnation,
    ensures
        after.candidates@ == before.candidates@,
{
}

// ---------------------------------------------------------------------------
// The queue
// ---------------------------------------------------------------------------

/// A claimed candidate that is put back goes behind all others, and it always
/// fits: taking it out made the room.
pub proof fn law_requeue_rotates<P, L>(
    router: Router<P, L>,
    before: ProbeBoard,
    claimed: ProbeBoard,
    after: ProbeBoard,
)
    requires
        before.wf(),
        before.candidates@.len() > 0,
        router.current(before),
        before.candidates@[0].incarnation == router.probe_incarnation,
        claimed.candidates@ == before.candidates@.drop_first(),
        claimed.ticket == before.ticket,
        router.requeued(claimed, before.candidates@[0], after),
    ensures
        after.candidates@ == rotated(before.candidates@, 1),
        after.capacity_refusals_total == claimed.capacity_refusals_total,
{
    let queue = before.candidates@;
    let candidate = queue[0];
    if waits(claimed.candidates@, candidate) {
        let i = choose|i: int|
            0 <= i < claimed.candidates@.len() && (#[trigger] claimed.candidates@[i]).same_record(
                candidate,
            );
        assert(claimed.candidates@[i] == queue[i + 1]);
        assert(queue[i + 1].same_record(queue[0]));
    }
    assert(after.candidates@ =~= rotated(queue, 1));
}

/// A queue after its first `n` went behind the others.
pub open spec fn rotated(queue: Seq<PaidProbeCandidate>, n: int) -> Seq<PaidProbeCandidate> {
    queue.skip(n) + queue.take(n)
}

/// No candidate starves: with each pass putting its own back behind the others,
/// the candidate that was `n`-th is the one claimed after `n` passes.
pub proof fn law_no_starvation(queue: Seq<PaidProbeCandidate>, n: int)
    requires
        0 <= n < queue.len(),
    ensures
        rotated(queue, n)[0] == queue[n],
        rotated(rotated(queue, n), 1) == rotated(queue, n + 1),
        rotated(queue, queue.len() as int) == queue,
{
    let now = rotated(queue, n);
    assert(now[0] == queue[n]);
    assert(rotated(now, 1) =~= rotated(queue, n + 1));
    assert(rotated(queue, queue.len() as int) =~= queue);
}

/// The queue never holds one lane twice under one publication, and never more
/// than its bound, whatever is put back.
pub proof fn law_queue_bounded<P, L>(
    router: Router<P, L>,
    candidate: PaidProbeCandidate,
    before: ProbeBoard,
    after: ProbeBoard,
)
    requires
        before.wf(),
        router.requeued(before, candidate, after),
    ensures
        after.wf(),
        after.candidates@.len() <= PROBE_QUEUE_DEPTH,
        waits(before.candidates@, candidate) ==> after.candidates@ == before.candidates@,
{
    assert forall|i: int, j: int|
        0 <= i < after.candidates@.len() && 0 <= j < after.candidates@.len() && i != j implies !(
    #[trigger] after.candidates@[i]).same_record(#[trigger] after.candidates@[j]) by {
        let n = before.candidates@.len();
        if i < n {
            assert(after.candidates@[i] == before.candidates@[i]);
        }
        if j < n {
            assert(after.candidates@[j] == before.candidates@[j]);
        }
        if i < n && j < n {
            assert(!before.candidates@[i].same_record(before.candidates@[j]));
        }
    }
}

// ---------------------------------------------------------------------------
// Permission
// ---------------------------------------------------------------------------

/// A pass that reaches the ledger asks it one question: of a record that gains
/// an entry with each question, it adds one, for the provider that serves the
/// lane and its daily cap.
pub proof fn law_one_question_per_pass<P, L: PaidProbeLedger>(
    router: Router<P, L>,
    record: spec_fn(L) -> Seq<(Seq<char>, u32)>,
    state_key: Seq<char>,
    reply: ReservationReply,
    after: L,
)
    requires
        forall|asked: L, provider: Seq<char>, daily_cap: u32, answer: PaidProbeReservation, then: L|
            #[trigger] asked.asked_once(provider, daily_cap, answer, &then) ==> record(then)
                == record(asked).push((provider, daily_cap)),
        router.may_reply(state_key, reply, Some(after)),
    ensures
        router.paid_probe_ledger is Some,
        sole_seat(router.resolved_models@, state_key) is Some,
        record(after) == record(router.paid_probe_ledger->0).push(
            (
                seat_provider(
                    router.resolved_models@,
                    sole_seat(router.resolved_models@, state_key)->0,
                ),
                router.daily_cap(state_key),
            ),
        ),
{
}

/// Only a commit permits a call, and only while the publication is in force.
pub proof fn law_only_a_commit_permits(reply: ReservationReply, current: bool)
    ensures
        reply_refusal(reply, current) is None <==> current && (exists|used: u32, cap: u32|
            reply == #[trigger] committed_reply(used, cap)),
{
    if reply_refusal(reply, current) is None {
        match reply {
            ReservationReply::Answered(PaidProbeReservation::Committed { used, cap }) => {
                assert(reply == committed_reply(used, cap));
            },
            _ => {},
        }
    }
}

/// The reply by which a unit is committed.
pub open spec fn committed_reply(used: u32, cap: u32) -> ReservationReply {
    ReservationReply::Answered(PaidProbeReservation::Committed { used, cap })
}

/// A candidate whose unit was or may have been committed is never tried again:
/// no refusal that follows a commit or a timeout puts it back.
pub proof fn law_spent_unit_not_retried(reply: ReservationReply, current: bool)
    requires
        reply_refusal(reply, current) is Some,
        reply is TimedOut || (exists|used: u32, cap: u32|
            reply == #[trigger] committed_reply(used, cap)),
    ensures
        !reply_refusal(reply, current)->0.recoverable(),
{
}

/// An authorization is bound to the candidate that was checked: the call asks
/// about its lane, under the publication it was recorded under, what was
/// captured for it, of the one seat that its lane names, and it is paid for by
/// a commit.
pub proof fn law_authorization_bound<P, L>(
    router: Router<P, L>,
    candidate: PaidProbeCandidate,
    pending: PendingReservation<P>,
    auth: PaidProbeAuthorization<P>,
    reply: ReservationReply,
)
    requires
        pending.is_for(candidate),
        router.on_terms(pending, candidate.key.state_key@),
        grants(auth, pending, reply),
    ensures
        authorizes(auth, candidate),
        sole_seat(router.resolved_models@, candidate.key.state_key@) is Some,
        describes(
            auth.target(),
            *router.config,
            router.resolved_models@,
            auth.lane().state_key@,
            sole_seat(router.resolved_models@, candidate.key.state_key@)->0,
        ),
        router.lane_sizing(auth.lane().state_key@) == Some(
            (auth.size().allowance(), auth.size().ceiling()),
        ),
        reply is Answered,
        reply->Answered_0 is Committed,
{
}

/// A refusal is put back exactly where the condition can pass on its own: a
/// taken slot, a spent day, an overloaded ledger, a failed write, or state that
/// could not be read.
pub proof fn law_requeue_partition(refusal: PaidProbeRefusal)
    ensures
        refusal.recoverable() <==> {
            ||| refusal == PaidProbeRefusal::NoConcurrencySlot
            ||| refusal == PaidProbeRefusal::Accounting(PaidProbeReservation::CapExhausted)
            ||| refusal == PaidProbeRefusal::Accounting(PaidProbeReservation::Overloaded)
            ||| refusal == PaidProbeRefusal::Accounting(PaidProbeReservation::WriteFailed)
            ||| refusal == PaidProbeRefusal::Accounting(PaidProbeReservation::MalformedState)
        },
{
}

/// Only an unsupported feature is evidence about the field under test.
pub proof fn law_capability_evidence(class: FailureClass)
    ensures
        paid_class(class) == PaidProbeFailure::CapabilityRejected <==> class
            is FeatureUnsupported,
{
}

// ---------------------------------------------------------------------------
// Sizing
// ---------------------------------------------------------------------------

/// A call that can be sized has an allowance of at least one token, which fits
/// under the ceiling, which is neither above the catalog's nor above the
/// configured one.
pub proof fn law_sizing_fits(
    row: EffectiveRow,
    kind: Option<Seq<char>>,
    adaptive: bool,
    configured: u32,
)
    requires
        sizing(row, kind, adaptive, configured) is Some,
    ensures
        ({
            let (allowance, ceiling) = sizing(row, kind, adaptive, configured)->0;
            &&& 1 <= allowance <= ceiling
            &&& row.confirmed_ceiling() is Some
            &&& ceiling <= row.confirmed_ceiling()->0
            &&& configured != 0 ==> ceiling <= configured
            &&& ceiling == ceiling_in_effect(row.confirmed_ceiling()->0, configured)
        }),
{
}

// ---------------------------------------------------------------------------
// Log tokens
// ---------------------------------------------------------------------------

/// Two outcomes of a reservation with the same token are the same but for
/// their counts.
pub proof fn law_reservation_tokens_distinct(a: PaidProbeReservation, b: PaidProbeReservation)
    requires
        a.token() == b.token(),
    ensures
        a == b || (a is Committed && b is Committed),
{
    reveal_strlit("committed");
    reveal_strlit("cap_exhausted");
    reveal_strlit("malformed_state");
    reveal_strlit("write_failed");
    reveal_strlit("overloaded");
    reveal_strlit("unavailable");
    assert("committed"@.len() == 9);
    assert("cap_exhausted"@.len() == 13);
    assert("malformed_state"@.len() == 15);
    assert("write_failed"@.len() == 12);
    assert("overloaded"@.len() == 10);
    assert("unavailable"@.len() == 11);
}

/// Two refusals with the same token are the same, apart from those that hand
/// on the ledger's own outcome.
pub proof fn law_refusal_tokens_distinct(a: PaidProbeRefusal, b: PaidProbeRefusal)
    requires
        !(a is Accounting),
        !(b is Accounting),
        a.token() == b.token(),
    ensures
        a == b,
{
    reveal_strlit("no_candidate");
    reveal_strlit("stale_incarnation");
    reveal_strlit("no_seat");
    reveal_strlit("unattributable");
    reveal_strlit("cap_zero");
    reveal_strlit("no_profile");
    reveal_strlit("no_concurrency_slot");
    reveal_strlit("no_ledger");
    reveal_strlit("superseded");
    reveal_strlit("reservation_timeout");
    assert("no_candidate"@.len() == 12);
    assert("stale_incarnation"@.len() == 17);
    assert("no_seat"@.len() == 7);
    assert("unattributable"@.len() == 14);
    assert("cap_zero"@.len() == 8);
    assert("no_profile"@.len() == 10);
    assert("no_concurrency_slot"@.len() == 19);
    assert("no_ledger"@.len() == 9);
    assert("superseded"@.len() == 10);
    assert("reservation_timeout"@.len() == 19);
    assert("no_profile"@[0] == 'n');
    assert("superseded"@[0] == 's');
    assert("no_concurrency_slot"@[0] == 'n');
    assert("reservation_timeout"@[0] == 'r');
}

/// Two failure classes with the same token are the same.
pub proof fn law_failure_tokens_distinct(a: PaidProbeFailure, b: PaidProbeFailure)
    requires
        a.token() == b.token(),
    ensures
        a == b,
{
    reveal_strlit("capability_rejected");
    reveal_strlit("auth_rejected");
    reveal_strlit("throttled");
    reveal_strlit("transient");
    reveal_strlit("request_refused");
    reveal_strlit("unclassified");
    assert("capability_rejected"@.len() == 19);
    assert("auth_rejected"@.len() == 13);
    assert("throttled"@.len() == 9);
    assert("transient"@.len() == 9);
    assert("request_refused"@.len() == 15);
    assert("unclassified"@.len() == 12);
    assert("throttled"@[1] == 'h');
    assert("transient"@[1] == 'r');
}

/// Two outcomes of a call with the same token are the same but for the class
/// of a failure.
pub proof fn law_dial_tokens_distinct(a: PaidProbeDialOutcome, b: PaidProbeDialOutcome)
    requires
        a.token() == b.token(),
    ensures
        a == b || (a is ProviderFailed && b is ProviderFailed),
{
    reveal_strlit("completed");
    reveal_strlit("provider_failed");
    reveal_strlit("gate_deferred");
    reveal_strlit("timed_out");
    assert("completed"@.len() == 9);
    assert("provider_failed"@.len() == 15);
    assert("gate_deferred"@.len() == 13);
    assert("timed_out"@.len() == 9);
    assert("completed"@[0] == 'c');
    assert("timed_out"@[0] == 't');
}

/// What is written of an authorization does not depend on whom it is for or on
/// what it asks: two of the same numbers are written alike.
pub proof fn law_redaction_hides_the_request(
    left: RedactedAuthorization,
    right: RedactedAuthorization,
    incarnation: u64,
    units: CommittedUnits,
    size: PaidProbeProfile,
)
    requires
        redacted_to(left, incarnation, units, size),
        redacted_to(right, incarnation, units, size),
    ensures
        left.incarnation == right.incarnation,
        left.committed_used == right.committed_used,
        left.committed_cap == right.committed_cap,
        left.max_tokens == right.max_tokens,
        left.key@ == right.key@,
        left.seat@ == right.seat@,
        left.payload@ == right.payload@,
        left.slot@ == right.slot@,
{
}

} // verus!
