//! What probes share: the lanes and payloads that they ask about, the
//! publication ticket, and the bounded queue of paid candidates.

use std::collections::VecDeque;

use vstd::prelude::*;

use crate::router::Router;
use crate::text::copy_list;
use crate::text::same_text;

verus! {

/// Bound on the number of paid candidates that wait at once.
pub const PROBE_QUEUE_DEPTH: usize = 64;

/// Bound on the number of probes in flight at once.
pub const PROBE_MAX_CONCURRENCY: usize = 4;

/// The lane that a field verdict is about.
pub struct FieldVerdictKey {
    /// The state key of the lane.
    pub state_key: String,
    /// The path of the field.
    pub path: String,
    /// The kind of the provider.
    pub provider_kind: String,
}

impl FieldVerdictKey {
    /// What identifies the lane.
    pub open spec fn identity(self) -> (Seq<char>, Seq<char>, Seq<char>) {
        (self.state_key@, self.path@, self.provider_kind@)
    }

    /// The key of a lane.
    pub fn new(state_key: &str, path: &str, provider_kind: &str) -> (out: Self)
        ensures
            out.identity() == (state_key@, path@, provider_kind@),
    {
        FieldVerdictKey {
            state_key: state_key.to_owned(),
            path: path.to_owned(),
            provider_kind: provider_kind.to_owned(),
        }
    }

    /// Whether two keys are of the same lane.
    pub fn same_lane(&self, other: &FieldVerdictKey) -> (same: bool)
        ensures
            same == (self.identity() == other.identity()),
    {
        same_text(self.state_key.as_str(), other.state_key.as_str()) && same_text(
            self.path.as_str(),
            other.path.as_str(),
        ) && same_text(self.provider_kind.as_str(), other.provider_kind.as_str())
    }

    /// A key of the same lane.
    pub fn copy(&self) -> (out: FieldVerdictKey)
        ensures
            out == *self,
    {
        FieldVerdictKey {
            state_key: self.state_key.clone(),
            path: self.path.clone(),
            provider_kind: self.provider_kind.clone(),
        }
    }
}

/// What was captured of the request that a probe asks about.
pub struct ProbePayload {
    /// The path of the field.
    pub path: String,
    /// The value of the field.
    pub value: String,
    /// The beta flags that the client sent.
    pub client_betas: Vec<String>,
    /// The beta flags that the operator configured.
    pub operator_betas: Vec<String>,
    /// Whether the request came out of a coding-client session.
    pub claude_code_session: bool,
}

impl ProbePayload {
    /// Whether two payloads hold the same.
    pub open spec fn same(self, other: ProbePayload) -> bool {
        &&& self.path == other.path
        &&& self.value == other.value
        &&& self.client_betas@ == other.client_betas@
        &&& self.operator_betas@ == other.operator_betas@
        &&& self.claude_code_session == other.claude_code_session
    }

    /// A payload that holds the same.
    pub fn copy(&self) -> (out: ProbePayload)
        ensures
            out.same(*self),
    {
        ProbePayload {
            path: self.path.clone(),
            value: self.value.clone(),
            client_betas: copy_list(&self.client_betas),
            operator_betas: copy_list(&self.operator_betas),
            claude_code_session: self.claude_code_session,
        }
    }
}

/// A lane that free probes could not settle and that a paid one may.
pub struct PaidProbeCandidate {
    /// The lane.
    pub key: FieldVerdictKey,
    /// The publication that the candidate was recorded under.
    pub incarnation: u64,
    /// What was captured of the request.
    pub payload: ProbePayload,
}

impl PaidProbeCandidate {
    /// Whether two candidates are of the same lane under the same publication.
    pub open spec fn same_record(self, other: PaidProbeCandidate) -> bool {
        self.key.identity() == other.key.identity() && self.incarnation == other.incarnation
    }
}

/// Whether a candidate of the same lane and publication waits.
pub open spec fn waits(queue: Seq<PaidProbeCandidate>, candidate: PaidProbeCandidate) -> bool {
    exists|i: int| 0 <= i < queue.len() && (#[trigger] queue[i]).same_record(candidate)
}

/// What the routers of a process share about probes.
pub struct ProbeBoard {
    /// The publication in force.
    pub ticket: u64,
    /// Whether probing has been shut down for good.
    pub shut_down: bool,
    /// The paid candidates that wait, the one to be claimed next first.
    pub candidates: VecDeque<PaidProbeCandidate>,
    /// The lanes that free probes are queued for.
    pub lanes: Vec<FieldVerdictKey>,
    /// Probes in flight.
    pub in_flight: usize,
    /// Candidates refused because the queue was full.
    pub capacity_refusals_total: u64,
    /// Units that a ledger committed.
    pub reservations_committed_total: u64,
}

/// What asking for a free probe of a lane came to.
#[derive(Clone, Copy, PartialEq, Eq, Structural, Debug)]
pub enum ProbeActivation {
    /// The lane is queued.
    Queued,
    /// The lane was queued already.
    AlreadyQueued,
    /// The router's publication is no longer in force.
    Retired,
}

/// Whether a lane is queued.
pub open spec fn lane_queued(lanes: Seq<FieldVerdictKey>, key: FieldVerdictKey) -> bool {
    exists|i: int| 0 <= i < lanes.len() && (#[trigger] lanes[i]).identity() == key.identity()
}

impl ProbeBoard {
    /// Whether the queue keeps its bound and holds each lane once under each
    /// publication, and the probes in flight keep theirs.
    pub open spec fn wf(&self) -> bool {
        &&& self.candidates@.len() <= PROBE_QUEUE_DEPTH
        &&& forall|i: int, j: int|
            0 <= i < self.candidates@.len() && 0 <= j < self.candidates@.len() && i != j ==> !(
            #[trigger] self.candidates@[i]).same_record(#[trigger] self.candidates@[j])
        &&& self.in_flight <= PROBE_MAX_CONCURRENCY
    }

    /// A board under its first publication, with nothing on it.
    pub fn new() -> (out: Self)
        ensures
            out.wf(),
            out.ticket == 1,
            !out.shut_down,
            out.candidates@.len() == 0,
            out.lanes@.len() == 0,
            out.in_flight == 0,
            out.capacity_refusals_total == 0,
            out.reservations_committed_total == 0,
    {
        ProbeBoard {
            ticket: 1,
            shut_down: false,
            candidates: VecDeque::new(),
            lanes: Vec::new(),
            in_flight: 0,
            capacity_refusals_total: 0,
            reservations_committed_total: 0,
        }
    }

    /// Drops every waiting candidate and every queued lane; how many lanes.
    fn sweep(&mut self) -> (retired: usize)
        ensures
            retired == old(self).lanes@.len(),
            final(self).lanes@.len() == 0,
            final(self).candidates@.len() == 0,
            *final(self) == (ProbeBoard {
                lanes: final(self).lanes,
                candidates: final(self).candidates,
                ..*old(self)
            }),
    {
        let retired = self.lanes.len();
        self.lanes = Vec::new();
        self.candidates = VecDeque::new();
        retired
    }
}

/// Whether `key` is among the first lanes.
fn find_lane(lanes: &Vec<FieldVerdictKey>, key: &FieldVerdictKey) -> (found: bool)
    ensures
        found == lane_queued(lanes@, *key),
{
    let mut i: usize = 0;
    while i < lanes.len()
        invariant
            i <= lanes.len(),
            forall|j: int| 0 <= j < i ==> (#[trigger] lanes@[j]).identity() != key.identity(),
        decreases lanes.len() - i,
    {
        if lanes[i].same_lane(key) {
            return true;
        }
        i = i + 1;
    }
    false
}

/// Whether a candidate of the same lane and publication waits.
fn find_candidate(queue: &VecDeque<PaidProbeCandidate>, candidate: &PaidProbeCandidate) -> (found:
    bool)
    ensures
        found == waits(queue@, *candidate),
{
    let n = queue.len();
    let mut i: usize = 0;
    while i < n
        invariant
            n == queue@.len(),
            i <= n,
            forall|j: int| 0 <= j < i ==> !(#[trigger] queue@[j]).same_record(*candidate),
        decreases n - i,
    {
        let waiting = &queue[i];
        if waiting.key.same_lane(&candidate.key) && waiting.incarnation == candidate.incarnation {
            assert(queue@[i as int].same_record(*candidate));
            return true;
        }
        i = i + 1;
    }
    false
}

impl<P, L> Router<P, L> {
    /// Whether the router's publication is the one in force.
    pub open spec fn current(&self, board: ProbeBoard) -> bool {
        self.probe_incarnation == board.ticket
    }

    /// The publication that the router was last stamped with.
    pub fn probe_incarnation(&self) -> (stamp: u64)
        ensures
            stamp == self.probe_incarnation,
    {
        self.probe_incarnation
    }

    /// Whether the router's publication is the one in force.
    pub fn is_current_publication(&self, board: &ProbeBoard) -> (yes: bool)
        ensures
            yes == self.current(*board),
    {
        self.probe_incarnation == board.ticket
    }

    /// Publishes the router: draws the next publication, stamps the router
    /// with it, and drops what was queued under earlier ones. Returns how many
    /// lanes were dropped. After a shutdown nothing happens.
    pub fn publish_probe_incarnation(&mut self, board: &mut ProbeBoard) -> (retired: usize)
        requires
            old(board).ticket < u64::MAX,
        ensures
            if old(board).shut_down {
                &&& retired == 0
                &&& *final(board) == *old(board)
                &&& *final(self) == *old(self)
            } else {
                &&& retired == old(board).lanes@.len()
                &&& final(board).ticket == old(board).ticket + 1
                &&& final(board).candidates@.len() == 0
                &&& final(board).lanes@.len() == 0
                &&& *final(board) == (ProbeBoard {
                    ticket: final(board).ticket,
                    candidates: final(board).candidates,
                    lanes: final(board).lanes,
                    ..*old(board)
                })
                &&& *final(self) == (Router {
                    probe_incarnation: final(board).ticket,
                    ..*old(self)
                })
            },
    {
        if board.shut_down {
            return 0;
        }
        board.ticket = board.ticket + 1;
        self.probe_incarnation = board.ticket;
        board.sweep()
    }

    /// Shuts probing down for good: moves to a publication that no router is
    /// stamped with, and drops everything that was queued. Returns how many
    /// lanes were dropped. A second shutdown does nothing.
    pub fn shutdown_probe_work(&self, board: &mut ProbeBoard) -> (cancelled: usize)
        requires
            old(board).ticket < u64::MAX,
        ensures
            if old(board).shut_down {
                &&& cancelled == 0
                &&& *final(board) == *old(board)
            } else {
                &&& cancelled == old(board).lanes@.len()
                &&& final(board).ticket == old(board).ticket + 1
                &&& final(board).shut_down
                &&& final(board).candidates@.len() == 0
                &&& final(board).lanes@.len() == 0
                &&& *final(board) == (ProbeBoard {
                    ticket: final(board).ticket,
                    shut_down: true,
                    candidates: final(board).candidates,
                    lanes: final(board).lanes,
                    ..*old(board)
                })
            },
    {
        if board.shut_down {
            return 0;
        }
        board.ticket = board.ticket + 1;
        board.shut_down = true;
        board.sweep()
    }

    /// Queues a lane for a free probe, unless it is queued already or the
    /// router's publication is no longer in force.
    pub fn activate_probe_lane(&self, board: &mut ProbeBoard, key: &FieldVerdictKey) -> (out:
        ProbeActivation)
        ensures
            out == (if !self.current(*old(board)) {
                ProbeActivation::Retired
            } else if lane_queued(old(board).lanes@, *key) {
                ProbeActivation::AlreadyQueued
            } else {
                ProbeActivation::Queued
            }),
            final(board).lanes@ == (if out == ProbeActivation::Queued {
                old(board).lanes@.push(*key)
            } else {
                old(board).lanes@
            }),
            *final(board) == (ProbeBoard { lanes: final(board).lanes, ..*old(board) }),
    {
        if !self.is_current_publication(board) {
            return ProbeActivation::Retired;
        }
        if find_lane(&board.lanes, key) {
            return ProbeActivation::AlreadyQueued;
        }
        board.lanes.push(key.copy());
        ProbeActivation::Queued
    }

    /// Takes the candidate that has waited longest.
    pub fn claim_paid_probe_candidate(&self, board: &mut ProbeBoard) -> (claimed: Option<
        PaidProbeCandidate,
    >)
        ensures
            if old(board).candidates@.len() == 0 {
                &&& claimed is None
                &&& *final(board) == *old(board)
            } else {
                &&& claimed == Some(old(board).candidates@[0])
                &&& final(board).candidates@ == old(board).candidates@.drop_first()
                &&& *final(board) == (ProbeBoard {
                    candidates: final(board).candidates,
                    ..*old(board)
                })
            },
            old(board).wf() ==> final(board).wf(),
    {
        if board.candidates.len() == 0 {
            return None;
        }
        let claimed = board.candidates.pop_front();
        assert(board.candidates@ =~= old(board).candidates@.drop_first());
        assert forall|i: int, j: int|
            old(board).wf() && 0 <= i < board.candidates@.len() && 0 <= j < board.candidates@.len()
                && i != j implies !(#[trigger] board.candidates@[i]).same_record(
            #[trigger] board.candidates@[j],
        ) by {
            assert(board.candidates@[i] == old(board).candidates@[i + 1]);
            assert(board.candidates@[j] == old(board).candidates@[j + 1]);
        }
        claimed
    }

    /// Whether a candidate may be put back: it is of the router's own
    /// publication, that one is in force, and it does not wait already.
    pub open spec fn may_requeue(&self, board: ProbeBoard, candidate: PaidProbeCandidate) -> bool {
        &&& candidate.incarnation == self.probe_incarnation
        &&& self.current(board)
        &&& !waits(board.candidates@, candidate)
    }

    /// The board after a candidate was put back behind the others. A full
    /// queue refuses it, which is counted.
    pub open spec fn requeued(
        &self,
        before: ProbeBoard,
        candidate: PaidProbeCandidate,
        after: ProbeBoard,
    ) -> bool {
        let admitted = self.may_requeue(before, candidate);
        let full = before.candidates@.len() >= PROBE_QUEUE_DEPTH;
        &&& after.candidates@ == (if admitted && !full {
            before.candidates@.push(candidate)
        } else {
            before.candidates@
        })
        &&& after.capacity_refusals_total == (if admitted && full {
            before.capacity_refusals_total.wrapping_add(1)
        } else {
            before.capacity_refusals_total
        })
        &&& after == (ProbeBoard {
            candidates: after.candidates,
            capacity_refusals_total: after.capacity_refusals_total,
            ..before
        })
    }

    /// Puts a claimed candidate back behind the others. One of a publication
    /// that is not in force, and one that waits already, is dropped.
    pub fn requeue_paid_probe_candidate(
        &self,
        board: &mut ProbeBoard,
        candidate: PaidProbeCandidate,
    )
        ensures
            self.requeued(*old(board), candidate, *final(board)),
            old(board).wf() ==> final(board).wf(),
    {
        if candidate.incarnation != self.probe_incarnation || !self.is_current_publication(board) {
            return;
        }
        if find_candidate(&board.candidates, &candidate) {
            return;
        }
        if board.candidates.len() >= PROBE_QUEUE_DEPTH {
            board.capacity_refusals_total = board.capacity_refusals_total.wrapping_add(1);
            return;
        }
        board.candidates.push_back(candidate);
        assert(board.candidates@ =~= old(board).candidates@.push(candidate));
        assert forall|i: int, j: int|
            old(board).wf() && 0 <= i < board.candidates@.len() && 0 <= j < board.candidates@.len()
                && i != j implies !(#[trigger] board.candidates@[i]).same_record(
            #[trigger] board.candidates@[j],
        ) by {
            if i < old(board).candidates@.len() {
                assert(board.candidates@[i] == old(board).candidates@[i]);
            }
            if j < old(board).candidates@.len() {
                assert(board.candidates@[j] == old(board).candidates@[j]);
            }
        }
    }

    /// Records a lane that free probes could not settle, by the rules of
    /// [`Self::requeue_paid_probe_candidate`].
    pub fn record_paid_probe_candidate(
        &self,
        board: &mut ProbeBoard,
        candidate: PaidProbeCandidate,
    )
        ensures
            self.requeued(*old(board), candidate, *final(board)),
            old(board).wf() ==> final(board).wf(),
    {
        self.requeue_paid_probe_candidate(board, candidate)
    }
}

} // verus!
