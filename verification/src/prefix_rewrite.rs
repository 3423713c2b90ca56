//! Detection of a client that rewrites the history of its own conversation.
//!
//! A session is keyed by the client's own key alone. What is compared from
//! turn to turn is the canonical prefix: the system prompt, the tools and all
//! messages but the newest, which grows with every turn. A prefix that kept or
//! extended its messages is compared over the old region; one that became
//! shorter is a compaction and never a rewrite.

use lru::LruCache;

use vstd::prelude::*;
use vstd::string::StringSliceAdditionalSpecFns;
use vstd::utf8::encode_utf8;

use crate::dispatch::option_text;
use crate::dispatch::DispatchMeta;
use crate::request::ChatRequest;
use crate::session_cache::cache_get;
use crate::session_cache::cache_keys;
use crate::session_cache::cache_len;
use crate::session_cache::cache_limit;
use crate::session_cache::cache_new;
use crate::session_cache::cache_peek;
use crate::session_cache::cache_put;
use crate::session_cache::cache_touched;
use crate::session_cache::cache_with;
use crate::session_cache::cached_sessions;
use crate::session_cache::cached_value;
use crate::session_cache::distinct_sessions;
use crate::session_cache::is_cached;
use crate::session_cache::lemma_cache_touched;
use crate::session_cache::lemma_cache_with;
use crate::session_cache::lemma_cache_with_again;
use crate::text::texts;

verus! {

/// Bound on the number of sessions tracked at once.
pub const PREFIX_REWRITE_CAPACITY: usize = 1024;

// ---------------------------------------------------------------------------
// Fingerprints
// ---------------------------------------------------------------------------

/// The FNV-1a hash of some bytes.
pub open spec fn fnv1a(bytes: Seq<u8>) -> u64
    decreases bytes.len(),
{
    if bytes.len() == 0 {
        0xcbf2_9ce4_8422_2325
    } else {
        (fnv1a(bytes.drop_last()) ^ (bytes.last() as u64)).wrapping_mul(0x100_0000_01b3)
    }
}

/// The FNV-1a hash of some bytes.
pub fn fnv1a_hash(bytes: &[u8]) -> (hash: u64)
    ensures
        hash == fnv1a(bytes@),
{
    let mut hash: u64 = 0xcbf2_9ce4_8422_2325;
    let mut i: usize = 0;
    assert(bytes@.take(0) =~= Seq::<u8>::empty());
    while i < bytes.len()
        invariant
            i <= bytes.len(),
            hash == fnv1a(bytes@.take(i as int)),
        decreases bytes.len() - i,
    {
        assert(bytes@.take(i as int + 1).drop_last() =~= bytes@.take(i as int));
        hash = (hash ^ (bytes[i] as u64)).wrapping_mul(0x100_0000_01b3);
        i = i + 1;
    }
    assert(bytes@.take(i as int) =~= bytes@);
    hash
}

/// The JSON text of a system prompt, tools and messages.
pub uninterp spec fn serialized_prefix(
    system: Option<Seq<char>>,
    tools: Option<Seq<char>>,
    front: Seq<Seq<char>>,
) -> Seq<char>;

/// `serde_json::to_string` of the triple of system prompt, tools and messages.
/// Nothing is claimed of the text but that the triple decides it. A failure is
/// read as the empty text.
#[verifier::external_body]
fn serialize_prefix(
    system: &Option<String>,
    tools: &Option<String>,
    front: &[String],
) -> (text: String)
    ensures
        text@ == serialized_prefix(option_text(*system), option_text(*tools), texts(front@)),
{
    serde_json::to_string(&(system, tools, front)).unwrap_or_default()
}

/// The first `n` messages, or all of them where there are fewer.
pub open spec fn front_of(messages: Seq<String>, n: int) -> Seq<String> {
    if n <= messages.len() {
        messages.take(n)
    } else {
        messages
    }
}

/// The fingerprint of a serialized prefix.
pub open spec fn text_fingerprint(serialized: Seq<char>) -> u64 {
    fnv1a(encode_utf8(serialized))
}

/// The fingerprint of a request's canonical prefix cut to `n` messages.
pub open spec fn prefix_fingerprint(req: ChatRequest, n: int) -> u64 {
    text_fingerprint(
        serialized_prefix(
            option_text(req.system),
            option_text(req.tools),
            texts(front_of(req.messages@, n)),
        ),
    )
}

/// How many messages the canonical prefix covers: all but the newest.
pub open spec fn prefix_length(req: ChatRequest) -> usize {
    if req.messages@.len() == 0 {
        0
    } else {
        (req.messages@.len() - 1) as usize
    }
}

/// The fingerprint of a serialized prefix.
pub fn fingerprint_text(serialized: &str) -> (hash: u64)
    ensures
        hash == text_fingerprint(serialized@),
{
    fnv1a_hash(serialized.as_bytes())
}

/// Fingerprints the canonical prefix cut to `prefix_len` messages. A length
/// past the end covers all messages.
pub fn fingerprint_prefix_at(req: &ChatRequest, prefix_len: usize) -> (hash: u64)
    ensures
        hash == prefix_fingerprint(*req, prefix_len as int),
        hash == fnv1a(
            encode_utf8(
                serialized_prefix(
                    option_text(req.system),
                    option_text(req.tools),
                    texts(
                        if prefix_len <= req.messages@.len() {
                            req.messages@.take(prefix_len as int)
                        } else {
                            req.messages@
                        },
                    ),
                ),
            ),
        ),
{
    let n: usize = if prefix_len <= req.messages.len() {
        prefix_len
    } else {
        req.messages.len()
    };
    let front = vstd::slice::slice_subrange(req.messages.as_slice(), 0, n);
    assert(front@ =~= front_of(req.messages@, prefix_len as int));
    let serialized = serialize_prefix(&req.system, &req.tools, front);
    fingerprint_text(serialized.as_str())
}

/// Fingerprints the canonical prefix: how many messages it covers, and their
/// fingerprint.
pub fn fingerprint_prefix(req: &ChatRequest) -> (out: (usize, u64))
    ensures
        out.0 == prefix_length(*req),
        out.1 == prefix_fingerprint(*req, prefix_length(*req) as int),
{
    let prefix_len: usize = req.messages.len().saturating_sub(1);
    (prefix_len, fingerprint_prefix_at(req, prefix_len))
}

// ---------------------------------------------------------------------------
// Classification
// ---------------------------------------------------------------------------

/// What one observed turn is against the baseline of its session.
#[derive(Clone, Copy, PartialEq, Eq, Structural, Debug)]
pub enum EpochEvent {
    /// The old region is as it was: nothing changed, or turns were appended.
    Stable,
    /// The old region changed: the client rewrote history within the epoch.
    Rewritten,
    /// The prefix became shorter, as in a compaction.
    Reseeded,
}

impl EpochEvent {
    /// The advisory code of an event.
    pub open spec fn advisory(self) -> i64 {
        match self {
            EpochEvent::Stable => 0,
            EpochEvent::Rewritten => 1,
            EpochEvent::Reseeded => 2,
        }
    }

    /// The advisory code of the event.
    pub fn code(self) -> (code: i64)
        ensures
            code == self.advisory(),
    {
        match self {
            EpochEvent::Stable => 0,
            EpochEvent::Rewritten => 1,
            EpochEvent::Reseeded => 2,
        }
    }
}

/// What one observation established.
#[derive(Clone, Copy, PartialEq, Eq, Structural, Debug)]
pub struct EpochObservation {
    /// The event, or nothing where the session had no baseline.
    pub event: Option<EpochEvent>,
    /// Rewrites of the session so far.
    pub epoch: u64,
    /// Compactions of the session so far.
    pub compactions: u32,
    /// The prefix length of the baseline before this observation.
    pub prev_prefix_len: Option<usize>,
    /// The prefix length of this turn.
    pub prefix_len: usize,
}

/// What a turn is against a baseline: by its length where it became shorter,
/// and else by the fingerprint of its old region.
pub open spec fn event_of(
    baseline: (usize, u64, u64, u32),
    prefix_len: usize,
    old_region: u64,
) -> EpochEvent {
    if prefix_len < baseline.0 {
        EpochEvent::Reseeded
    } else if old_region == baseline.1 {
        EpochEvent::Stable
    } else {
        EpochEvent::Rewritten
    }
}

/// The baseline after an event: the turn's own prefix, a rewrite counted by
/// the epoch and a compaction by the compaction count.
pub open spec fn baseline_after(
    baseline: (usize, u64, u64, u32),
    event: EpochEvent,
    prefix_len: usize,
    fingerprint: u64,
) -> (usize, u64, u64, u32) {
    (
        prefix_len,
        fingerprint,
        if event == EpochEvent::Rewritten {
            baseline.2.saturating_add(1)
        } else {
            baseline.2
        },
        if event == EpochEvent::Reseeded {
            baseline.3.saturating_add(1)
        } else {
            baseline.3
        },
    )
}

/// The first baseline of a session.
pub open spec fn first_baseline(prefix_len: usize, fingerprint: u64) -> (usize, u64, u64, u32) {
    (prefix_len, fingerprint, 0, 0)
}

/// What is reported of a turn without a baseline.
pub open spec fn first_sight(prefix_len: usize) -> EpochObservation {
    EpochObservation { event: None, epoch: 0, compactions: 0, prev_prefix_len: None, prefix_len }
}

/// What is reported of a turn that was classified against a baseline.
pub open spec fn classified(
    baseline: (usize, u64, u64, u32),
    prefix_len: usize,
    fingerprint: u64,
    old_region: u64,
) -> EpochObservation {
    let event = event_of(baseline, prefix_len, old_region);
    let after = baseline_after(baseline, event, prefix_len, fingerprint);
    EpochObservation {
        event: Some(event),
        epoch: after.2,
        compactions: after.3,
        prev_prefix_len: Some(baseline.0),
        prefix_len,
    }
}

/// What observing a request reports of its session.
pub open spec fn observation_of(
    sessions: Seq<(Seq<char>, (usize, u64, u64, u32))>,
    key: Seq<char>,
    req: ChatRequest,
) -> EpochObservation {
    let n = prefix_length(req);
    if is_cached(sessions, key) {
        let baseline = cached_value(sessions, key);
        classified(
            baseline,
            n,
            prefix_fingerprint(req, n as int),
            prefix_fingerprint(req, baseline.0 as int),
        )
    } else {
        first_sight(n)
    }
}

/// The baseline of a session after observing a request.
pub open spec fn baseline_from(
    sessions: Seq<(Seq<char>, (usize, u64, u64, u32))>,
    key: Seq<char>,
    req: ChatRequest,
) -> (usize, u64, u64, u32) {
    let n = prefix_length(req);
    let fingerprint = prefix_fingerprint(req, n as int);
    if is_cached(sessions, key) {
        let baseline = cached_value(sessions, key);
        let event = event_of(baseline, n, prefix_fingerprint(req, baseline.0 as int));
        baseline_after(baseline, event, n, fingerprint)
    } else {
        first_baseline(n, fingerprint)
    }
}

/// What is reported of a turn without a baseline.
pub fn first_observation(prefix_len: usize) -> (observation: EpochObservation)
    ensures
        observation == first_sight(prefix_len),
{
    EpochObservation { event: None, epoch: 0, compactions: 0, prev_prefix_len: None, prefix_len }
}

/// The fingerprint of a turn's old region, the turn cut to the length of the
/// baseline. A turn that became shorter has none.
pub fn old_region_of(req: &ChatRequest, prefix_len: usize, baseline_len: usize) -> (region:
    Option<u64>)
    ensures
        region == (if prefix_len >= baseline_len {
            Some(prefix_fingerprint(*req, baseline_len as int))
        } else {
            None
        }),
{
    if prefix_len >= baseline_len {
        Some(fingerprint_prefix_at(req, baseline_len))
    } else {
        None
    }
}

// ---------------------------------------------------------------------------
// The store
// ---------------------------------------------------------------------------

/// The baselines of the sessions seen last, bounded.
pub struct PrefixRewriteStore {
    cache: LruCache<String, (usize, u64, u64, u32)>,
}

impl PrefixRewriteStore {
    /// The tracked sessions, most recently used first, each with its prefix
    /// length, fingerprint, epoch and compaction count.
    pub closed spec fn sessions(&self) -> Seq<(Seq<char>, (usize, u64, u64, u32))> {
        cached_sessions(self.cache)
    }

    /// Whether each session is tracked once and the bound is kept.
    pub closed spec fn wf(&self) -> bool {
        &&& cache_limit(self.cache) == PREFIX_REWRITE_CAPACITY
        &&& distinct_sessions(self.sessions())
        &&& self.sessions().len() <= PREFIX_REWRITE_CAPACITY
    }

    /// An empty store.
    pub fn new() -> (out: Self)
        ensures
            out.wf(),
            out.sessions().len() == 0,
    {
        PrefixRewriteStore { cache: cache_new(PREFIX_REWRITE_CAPACITY) }
    }

    /// The bound holds of every valid store, and each session stands in it once.
    pub proof fn law_store_bounded(&self)
        requires
            self.wf(),
        ensures
            self.sessions().len() <= PREFIX_REWRITE_CAPACITY,
            distinct_sessions(self.sessions()),
    {
    }

    /// How many sessions are tracked.
    pub fn len(&self) -> (n: usize)
        ensures
            n == self.sessions().len(),
    {
        cache_len(&self.cache)
    }

    /// Whether no session is tracked.
    pub fn is_empty(&self) -> (yes: bool)
        ensures
            yes == (self.sessions().len() == 0),
    {
        cache_len(&self.cache) == 0
    }

    /// The tracked session keys, least recently used first.
    pub fn keys_lru_first(&self) -> (keys: Vec<String>)
        ensures
            keys@.len() == self.sessions().len(),
            forall|i: int|
                0 <= i < keys@.len() ==> (#[trigger] keys@[i])@ == self.sessions()[keys@.len() - 1
                    - i].0,
    {
        let newest_first = cache_keys(&self.cache);
        let mut keys: Vec<String> = Vec::new();
        let mut left: usize = newest_first.len();
        while left > 0
            invariant
                left <= newest_first.len(),
                keys@.len() == newest_first.len() - left,
                newest_first@.len() == self.sessions().len(),
                forall|i: int|
                    0 <= i < newest_first@.len() ==> (#[trigger] newest_first@[i])@
                        == self.sessions()[i].0,
                forall|i: int|
                    0 <= i < keys@.len() ==> (#[trigger] keys@[i])@
                        == self.sessions()[newest_first@.len() - 1 - i].0,
            decreases left,
        {
            keys.push(newest_first[left - 1].clone());
            left = left - 1;
        }
        keys
    }

    /// The prefix length and the fingerprint of a session's baseline.
    pub fn baseline_of(&self, session_key: &str) -> (baseline: Option<(usize, u64)>)
        ensures
            baseline == (if is_cached(self.sessions(), session_key@) {
                let held = cached_value(self.sessions(), session_key@);
                Some((held.0, held.1))
            } else {
                None
            }),
    {
        match cache_peek(&self.cache, session_key) {
            Some(held) => Some((held.0, held.1)),
            None => None,
        }
    }

    /// First access of an observation: the baseline that the turn is to be
    /// classified against, or nothing where the session had none and the turn
    /// itself was recorded as its baseline.
    ///
    /// The fingerprint of the old region is taken between this access and
    /// [`Self::commit`], so that no other session waits for it.
    pub fn baseline_or_seed(
        &mut self,
        session_key: &str,
        prefix_len: usize,
        fingerprint: u64,
    ) -> (baseline: Option<(usize, u64)>)
        requires
            old(self).wf(),
        ensures
            final(self).wf(),
            if is_cached(old(self).sessions(), session_key@) {
                let held = cached_value(old(self).sessions(), session_key@);
                &&& baseline == Some((held.0, held.1))
                &&& final(self).sessions() == cache_touched(old(self).sessions(), session_key@)
            } else {
                &&& baseline is None
                &&& final(self).sessions() == cache_with(
                    old(self).sessions(),
                    PREFIX_REWRITE_CAPACITY as nat,
                    session_key@,
                    first_baseline(prefix_len, fingerprint),
                )
            },
    {
        let ghost before = self.sessions();
        match cache_get(&mut self.cache, session_key) {
            Some(held) => {
                proof {
                    let limit = PREFIX_REWRITE_CAPACITY as nat;
                    lemma_cache_touched(before, limit, session_key@);
                    lemma_cache_with(
                        before,
                        limit,
                        session_key@,
                        cached_value(before, session_key@),
                    );
                }
                Some((held.0, held.1))
            },
            None => {
                proof {
                    lemma_cache_with(
                        before,
                        PREFIX_REWRITE_CAPACITY as nat,
                        session_key@,
                        first_baseline(prefix_len, fingerprint),
                    );
                }
                cache_put(
                    &mut self.cache,
                    session_key.to_owned(),
                    (prefix_len, fingerprint, 0, 0),
                );
                None
            },
        }
    }

    /// Second access of an observation: records the turn and reports what it
    /// is, or nothing where the baseline is no longer the one that it was
    /// classified against and the observation has to start over.
    ///
    /// `old_region` is the fingerprint of the turn cut to the baseline's
    /// length; a turn that became shorter needs none.
    pub fn commit(
        &mut self,
        session_key: &str,
        baseline: (usize, u64),
        prefix_len: usize,
        fingerprint: u64,
        old_region: Option<u64>,
    ) -> (observation: Option<EpochObservation>)
        requires
            old(self).wf(),
            (old_region is Some) == (prefix_len >= baseline.0),
        ensures
            final(self).wf(),
            ({
                let held = cached_value(old(self).sessions(), session_key@);
                let moved = !is_cached(old(self).sessions(), session_key@) || (held.0, held.1)
                    != baseline;
                let observed = match old_region {
                    Some(region) => region,
                    None => 0,
                };
                if moved {
                    &&& observation is None
                    &&& final(self).sessions() == cache_touched(
                        old(self).sessions(),
                        session_key@,
                    )
                } else {
                    &&& observation == Some(classified(held, prefix_len, fingerprint, observed))
                    &&& final(self).sessions() == cache_with(
                        old(self).sessions(),
                        PREFIX_REWRITE_CAPACITY as nat,
                        session_key@,
                        baseline_after(
                            held,
                            event_of(held, prefix_len, observed),
                            prefix_len,
                            fingerprint,
                        ),
                    )
                }
            }),
    {
        let ghost before = self.sessions();
        let ghost limit = PREFIX_REWRITE_CAPACITY as nat;
        let held = match cache_get(&mut self.cache, session_key) {
            Some(held) => held,
            None => {
                return None;
            },
        };
        proof {
            lemma_cache_touched(before, limit, session_key@);
            lemma_cache_with(before, limit, session_key@, held);
        }
        if held.0 != baseline.0 || held.1 != baseline.1 {
            return None;
        }
        let event: EpochEvent = match old_region {
            None => EpochEvent::Reseeded,
            Some(observed) => if observed == held.1 {
                EpochEvent::Stable
            } else {
                EpochEvent::Rewritten
            },
        };
        let epoch: u64 = match event {
            EpochEvent::Rewritten => held.2.saturating_add(1),
            _ => held.2,
        };
        let compactions: u32 = match event {
            EpochEvent::Reseeded => held.3.saturating_add(1),
            _ => held.3,
        };
        proof {
            let after = (prefix_len, fingerprint, epoch, compactions);
            lemma_cache_with_again(before, limit, session_key@, held, after);
            lemma_cache_with(before, limit, session_key@, after);
        }
        cache_put(
            &mut self.cache,
            session_key.to_owned(),
            (prefix_len, fingerprint, epoch, compactions),
        );
        Some(
            EpochObservation {
                event: Some(event),
                epoch,
                compactions,
                prev_prefix_len: Some(baseline.0),
                prefix_len,
            },
        )
    }

    /// Fingerprints the canonical prefix of a request, classifies it against
    /// the baseline of its session, and makes it the baseline.
    pub fn observe(&mut self, session_key: &str, req: &ChatRequest) -> (observation:
        EpochObservation)
        requires
            old(self).wf(),
        ensures
            final(self).wf(),
            observation == observation_of(old(self).sessions(), session_key@, *req),
            final(self).sessions() == cache_with(
                old(self).sessions(),
                PREFIX_REWRITE_CAPACITY as nat,
                session_key@,
                baseline_from(old(self).sessions(), session_key@, *req),
            ),
    {
        let ghost before = self.sessions();
        let ghost limit = PREFIX_REWRITE_CAPACITY as nat;
        let (prefix_len, fingerprint) = fingerprint_prefix(req);
        match self.baseline_or_seed(session_key, prefix_len, fingerprint) {
            None => first_observation(prefix_len),
            Some(baseline) => {
                let ghost held = cached_value(before, session_key@);
                proof {
                    lemma_cache_touched(before, limit, session_key@);
                    lemma_cache_with(before, limit, session_key@, held);
                    lemma_cache_with_again(
                        before,
                        limit,
                        session_key@,
                        held,
                        baseline_from(before, session_key@, *req),
                    );
                }
                let old_region = old_region_of(req, prefix_len, baseline.0);
                let observation = self.commit(
                    session_key,
                    baseline,
                    prefix_len,
                    fingerprint,
                    old_region,
                );
                observation.unwrap()
            },
        }
    }
}

impl Default for PrefixRewriteStore {
    fn default() -> (out: Self)
        ensures
            out.wf(),
            out.sessions().len() == 0,
    {
        PrefixRewriteStore::new()
    }
}

// ---------------------------------------------------------------------------
// Stamping and the advisory warning
// ---------------------------------------------------------------------------

/// What the advisory warning of a rewrite says: lengths and the epoch, and
/// neither the session key nor any of the conversation.
#[derive(Clone, Copy, PartialEq, Eq, Structural, Debug)]
pub struct RewriteWarning {
    /// The prefix length of the baseline.
    pub previous_prefix_len: usize,
    /// The prefix length of the turn.
    pub prefix_len: usize,
    /// Rewrites of the session so far.
    pub epoch: u64,
}

/// The warning that an observation calls for, unless one was given before.
pub open spec fn warning_for(observation: EpochObservation, warned: bool) -> Option<
    RewriteWarning,
> {
    match (observation.event, observation.prev_prefix_len) {
        (Some(EpochEvent::Rewritten), Some(previous)) => if warned {
            None
        } else {
            Some(
                RewriteWarning {
                    previous_prefix_len: previous,
                    prefix_len: observation.prefix_len,
                    epoch: observation.epoch,
                },
            )
        },
        _ => None,
    }
}

/// Whether the warning latch is set after an observation.
pub open spec fn latch_after(observation: EpochObservation, warned: bool) -> bool {
    warned || (observation.event == Some(EpochEvent::Rewritten)
        && observation.prev_prefix_len is Some)
}

/// Gives the warning of a rewrite once: the latch stays set from then on.
fn warn_prefix_rewritten(
    warned: &mut bool,
    previous_prefix_len: usize,
    observation: &EpochObservation,
) -> (warning: Option<RewriteWarning>)
    ensures
        *final(warned),
        warning == (if *old(warned) {
            None
        } else {
            Some(
                RewriteWarning {
                    previous_prefix_len,
                    prefix_len: observation.prefix_len,
                    epoch: observation.epoch,
                },
            )
        }),
{
    if *warned {
        return None;
    }
    *warned = true;
    Some(
        RewriteWarning {
            previous_prefix_len,
            prefix_len: observation.prefix_len,
            epoch: observation.epoch,
        },
    )
}

/// Stamps the code of an observation onto the metadata and says whether the
/// rewrite is to be warned of. A turn without a baseline leaves both alone.
pub fn stamp_observation(
    observation: &EpochObservation,
    warned: &mut bool,
    meta: &mut DispatchMeta,
) -> (warning: Option<RewriteWarning>)
    ensures
        warning == warning_for(*observation, *old(warned)),
        *final(warned) == latch_after(*observation, *old(warned)),
        *final(meta) == (match observation.event {
            Some(event) => DispatchMeta {
                prefix_epoch_event: Some(event.advisory()),
                ..*old(meta)
            },
            None => *old(meta),
        }),
{
    let event: EpochEvent = match observation.event {
        Some(event) => event,
        None => {
            return None;
        },
    };
    meta.prefix_epoch_event = Some(event.code());
    match (event, observation.prev_prefix_len) {
        (EpochEvent::Rewritten, Some(previous)) => warn_prefix_rewritten(
            warned,
            previous,
            observation,
        ),
        _ => None,
    }
}

/// Observes the canonical prefix of a client request, once per request, and
/// stamps the outcome onto its metadata. A request without a session key
/// leaves everything alone.
pub fn observe_prefix_epoch(
    store: &mut PrefixRewriteStore,
    warned: &mut bool,
    req: &ChatRequest,
    meta: &mut DispatchMeta,
) -> (warning: Option<RewriteWarning>)
    requires
        old(store).wf(),
    ensures
        final(store).wf(),
        match req.routectl_internal.inbound_session_key {
            None => {
                &&& warning is None
                &&& final(store).sessions() == old(store).sessions()
                &&& *final(warned) == *old(warned)
                &&& *final(meta) == *old(meta)
            },
            Some(key) => {
                let observation = observation_of(old(store).sessions(), key@, *req);
                &&& warning == warning_for(observation, *old(warned))
                &&& *final(warned) == latch_after(observation, *old(warned))
                &&& final(store).sessions() == cache_with(
                    old(store).sessions(),
                    PREFIX_REWRITE_CAPACITY as nat,
                    key@,
                    baseline_from(old(store).sessions(), key@, *req),
                )
                &&& *final(meta) == (match observation.event {
                    Some(event) => DispatchMeta {
                        prefix_epoch_event: Some(event.advisory()),
                        ..*old(meta)
                    },
                    None => *old(meta),
                })
            },
        },
{
    match &req.routectl_internal.inbound_session_key {
        None => None,
        Some(key) => {
            let observation = store.observe(key.as_str(), req);
            stamp_observation(&observation, warned, meta)
        },
    }
}

} // verus!
