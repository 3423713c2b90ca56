//! Laws of the prefix-rewrite detector, over the sessions that a store tracks.

use vstd::prelude::*;
use vstd::utf8::encode_utf8;

use crate::dispatch::option_text;
use crate::prefix_rewrite::baseline_after;
use crate::prefix_rewrite::baseline_from;
use crate::prefix_rewrite::classified;
use crate::prefix_rewrite::event_of;
use crate::prefix_rewrite::first_baseline;
use crate::prefix_rewrite::first_sight;
use crate::prefix_rewrite::fnv1a;
use crate::prefix_rewrite::front_of;
use crate::prefix_rewrite::latch_after;
use crate::prefix_rewrite::observation_of;
use crate::prefix_rewrite::prefix_fingerprint;
use crate::prefix_rewrite::prefix_length;
use crate::prefix_rewrite::serialized_prefix;
use crate::prefix_rewrite::text_fingerprint;
use crate::prefix_rewrite::warning_for;
use crate::prefix_rewrite::EpochEvent;
use crate::prefix_rewrite::EpochObservation;
use crate::prefix_rewrite::PREFIX_REWRITE_CAPACITY;
use crate::request::ChatRequest;
use crate::session_cache::cache_place;
use crate::session_cache::cache_touched;
use crate::session_cache::cache_with;
use crate::session_cache::cached_value;
use crate::session_cache::distinct_sessions;
use crate::session_cache::is_cached;
use crate::session_cache::lemma_cache_with;
use crate::text::texts;

verus! {

/// The tracked sessions after a request was observed under a key.
pub open spec fn observed(
    sessions: Seq<(Seq<char>, (usize, u64, u64, u32))>,
    limit: nat,
    key: Seq<char>,
    req: ChatRequest,
) -> Seq<(Seq<char>, (usize, u64, u64, u32))> {
    cache_with(sessions, limit, key, baseline_from(sessions, key, req))
}

/// Whether `later` keeps all that the canonical prefix of `earlier` covers:
/// system prompt, tools and all of its messages but the newest.
pub open spec fn keeps_prefix(earlier: ChatRequest, later: ChatRequest) -> bool {
    let n = prefix_length(earlier) as int;
    &&& option_text(later.system) == option_text(earlier.system)
    &&& option_text(later.tools) == option_text(earlier.tools)
    &&& texts(front_of(later.messages@, n)) == texts(front_of(earlier.messages@, n))
}

/// The newest turn plays no part. Requests with as many messages have prefixes
/// of the same length, and so have one without a message and one with a single
/// message; and requests whose prefixes are as long, and that agree on what the
/// prefix covers, have the same fingerprint, whatever either has for its newest
/// turn.
pub proof fn law_newest_turn_excluded(a: ChatRequest, b: ChatRequest)
    requires
        keeps_prefix(a, b),
    ensures
        a.messages@.len() == b.messages@.len() ==> prefix_length(a) == prefix_length(b),
        a.messages@.len() <= 1 && b.messages@.len() <= 1 ==> prefix_length(a) == prefix_length(b),
        prefix_length(a) == prefix_length(b) ==> prefix_fingerprint(a, prefix_length(a) as int)
            == prefix_fingerprint(b, prefix_length(b) as int),
{
}

/// A turn that only appends is stable: it is never taken for a rewrite, and
/// neither counter moves.
pub proof fn law_append_is_stable(
    sessions: Seq<(Seq<char>, (usize, u64, u64, u32))>,
    limit: nat,
    key: Seq<char>,
    earlier: ChatRequest,
    later: ChatRequest,
)
    requires
        distinct_sessions(sessions),
        sessions.len() <= limit,
        0 < limit,
        keeps_prefix(earlier, later),
        prefix_length(earlier) <= prefix_length(later),
    ensures
        ({
            let after = observed(sessions, limit, key, earlier);
            let seen = observation_of(after, key, later);
            &&& seen.event == Some(EpochEvent::Stable)
            &&& seen.epoch == cached_value(after, key).2
            &&& seen.compactions == cached_value(after, key).3
            &&& seen.prev_prefix_len == Some(prefix_length(earlier))
        }),
{
    lemma_cache_with(sessions, limit, key, baseline_from(sessions, key, earlier));
}

/// A turn that became shorter is a compaction, whatever its bytes: it is never
/// a rewrite, it leaves the epoch alone, and no warning comes of it.
pub proof fn law_shortening_is_compaction(
    sessions: Seq<(Seq<char>, (usize, u64, u64, u32))>,
    limit: nat,
    key: Seq<char>,
    earlier: ChatRequest,
    later: ChatRequest,
    warned: bool,
)
    requires
        distinct_sessions(sessions),
        sessions.len() <= limit,
        0 < limit,
        prefix_length(later) < prefix_length(earlier),
    ensures
        ({
            let after = observed(sessions, limit, key, earlier);
            let seen = observation_of(after, key, later);
            let held = cached_value(after, key);
            &&& seen.event == Some(EpochEvent::Reseeded)
            &&& seen.epoch == held.2
            &&& seen.compactions == held.3.saturating_add(1)
            &&& warning_for(seen, warned) is None
            &&& latch_after(seen, warned) == warned
        }),
{
    lemma_cache_with(sessions, limit, key, baseline_from(sessions, key, earlier));
}

/// A turn that is no shorter and whose old region has another fingerprint is a
/// rewrite: the epoch moves on by one and the compaction count stays.
pub proof fn law_changed_region_is_rewrite(
    sessions: Seq<(Seq<char>, (usize, u64, u64, u32))>,
    limit: nat,
    key: Seq<char>,
    earlier: ChatRequest,
    later: ChatRequest,
)
    requires
        distinct_sessions(sessions),
        sessions.len() <= limit,
        0 < limit,
        prefix_length(earlier) <= prefix_length(later),
        prefix_fingerprint(later, prefix_length(earlier) as int) != prefix_fingerprint(
            earlier,
            prefix_length(earlier) as int,
        ),
    ensures
        ({
            let after = observed(sessions, limit, key, earlier);
            let seen = observation_of(after, key, later);
            let held = cached_value(after, key);
            &&& seen.event == Some(EpochEvent::Rewritten)
            &&& seen.epoch == held.2.saturating_add(1)
            &&& seen.compactions == held.3
        }),
{
    lemma_cache_with(sessions, limit, key, baseline_from(sessions, key, earlier));
}

/// Whatever a turn was, it becomes the baseline: the same request is stable
/// when it comes again.
pub proof fn law_repeat_is_stable(
    sessions: Seq<(Seq<char>, (usize, u64, u64, u32))>,
    limit: nat,
    key: Seq<char>,
    req: ChatRequest,
)
    requires
        distinct_sessions(sessions),
        sessions.len() <= limit,
        0 < limit,
    ensures
        observation_of(observed(sessions, limit, key, req), key, req).event == Some(
            EpochEvent::Stable,
        ),
{
    law_append_is_stable(sessions, limit, key, req, req);
}

/// A session that is not tracked is seen for the first time: the turn is not
/// classified and starts both counters at zero.
pub proof fn law_first_sight(
    sessions: Seq<(Seq<char>, (usize, u64, u64, u32))>,
    key: Seq<char>,
    req: ChatRequest,
)
    requires
        !is_cached(sessions, key),
    ensures
        observation_of(sessions, key, req).event is None,
        observation_of(sessions, key, req).epoch == 0,
        baseline_from(sessions, key, req) == (
            prefix_length(req),
            prefix_fingerprint(req, prefix_length(req) as int),
            0u64,
            0u32,
        ),
{
}

/// Sessions do not touch each other: observing one leaves the baseline of any
/// other that is still tracked as it was.
pub proof fn law_sessions_independent(
    sessions: Seq<(Seq<char>, (usize, u64, u64, u32))>,
    limit: nat,
    key: Seq<char>,
    other: Seq<char>,
    req: ChatRequest,
)
    requires
        distinct_sessions(sessions),
        sessions.len() <= limit,
        0 < limit,
        other != key,
        is_cached(observed(sessions, limit, key, req), other),
    ensures
        is_cached(sessions, other),
        cached_value(observed(sessions, limit, key, req), other) == cached_value(sessions, other),
{
    lemma_cache_with(sessions, limit, key, baseline_from(sessions, key, req));
}

/// The tracked sessions after values were put under keys, one after the other.
pub open spec fn put_all(
    sessions: Seq<(Seq<char>, (usize, u64, u64, u32))>,
    limit: nat,
    puts: Seq<(Seq<char>, (usize, u64, u64, u32))>,
) -> Seq<(Seq<char>, (usize, u64, u64, u32))>
    decreases puts.len(),
{
    if puts.len() == 0 {
        sessions
    } else {
        cache_with(
            put_all(sessions, limit, puts.drop_last()),
            limit,
            puts.last().0,
            puts.last().1,
        )
    }
}

proof fn lemma_place_moves_by_one(
    sessions: Seq<(Seq<char>, (usize, u64, u64, u32))>,
    limit: nat,
    key: Seq<char>,
    other: Seq<char>,
    value: (usize, u64, u64, u32),
    at: int,
)
    requires
        distinct_sessions(sessions),
        sessions.len() <= limit,
        0 <= at < sessions.len(),
        sessions[at].0 == key,
        other != key,
        at + 1 < limit,
    ensures
        ({
            let after = cache_with(sessions, limit, other, value);
            exists|i: int|
                0 <= i <= at + 1 && i < after.len() && (#[trigger] after[i]).0 == key && after[i].1
                    == sessions[at].1
        }),
{
    let after = cache_with(sessions, limit, other, value);
    if is_cached(sessions, other) {
        let p = cache_place(sessions, other);
        assert(sessions[p].0 == other);
        let rest = sessions.remove(p);
        let j = if at < p {
            at
        } else {
            at - 1
        };
        assert(rest[j] == sessions[at]);
        assert(after[j + 1] == sessions[at]);
    } else if sessions.len() == limit {
        assert(after[at + 1] == sessions.drop_last()[at]);
        assert(after[at + 1] == sessions[at]);
    } else {
        assert(after[at + 1] == sessions[at]);
    }
}

/// Recent use protects a session: it stays tracked, with its baseline, through
/// any turns of other sessions that are fewer than the bound.
pub proof fn law_recent_use_protects(
    sessions: Seq<(Seq<char>, (usize, u64, u64, u32))>,
    limit: nat,
    key: Seq<char>,
    value: (usize, u64, u64, u32),
    puts: Seq<(Seq<char>, (usize, u64, u64, u32))>,
)
    requires
        distinct_sessions(sessions),
        sessions.len() <= limit,
        puts.len() < limit,
        forall|i: int| 0 <= i < puts.len() ==> (#[trigger] puts[i]).0 != key,
    ensures
        ({
            let after = put_all(cache_with(sessions, limit, key, value), limit, puts);
            &&& distinct_sessions(after)
            &&& after.len() <= limit
            &&& is_cached(after, key)
            &&& cached_value(after, key) == value
            &&& exists|i: int|
                0 <= i <= puts.len() && i < after.len() && (#[trigger] after[i]).0 == key
                    && after[i].1 == value
        }),
    decreases puts.len(),
{
    let start = cache_with(sessions, limit, key, value);
    lemma_cache_with(sessions, limit, key, value);
    let after = put_all(start, limit, puts);
    if puts.len() == 0 {
        assert(start[0].0 == key && start[0].1 == value);
    } else {
        let earlier = puts.drop_last();
        assert forall|i: int| 0 <= i < earlier.len() implies (#[trigger] earlier[i]).0 != key by {
            assert(earlier[i] == puts[i]);
        }
        law_recent_use_protects(sessions, limit, key, value, earlier);
        let before = put_all(start, limit, earlier);
        let at = choose|i: int|
            0 <= i <= earlier.len() && i < before.len() && (#[trigger] before[i]).0 == key
                && before[i].1 == value;
        let last = puts[puts.len() - 1];
        assert(puts.last() == last && last.0 != key);
        lemma_cache_with(before, limit, last.0, last.1);
        lemma_place_moves_by_one(before, limit, key, last.0, last.1, at);
        let i = choose|i: int|
            0 <= i <= at + 1 && i < after.len() && (#[trigger] after[i]).0 == key && after[i].1
                == before[at].1;
        assert(after[i].0 == key);
        let p = cache_place(after, key);
        assert(after[p].0 == key);
        assert(p == i);
    }
}

/// A warning is given for a rewrite only, at most once: with the latch set
/// there is none, and the latch never goes back.
pub proof fn law_one_warning(observation: EpochObservation, warned: bool)
    ensures
        warning_for(observation, warned) is Some ==> observation.event == Some(
            EpochEvent::Rewritten,
        ) && !warned && latch_after(observation, warned),
        warning_for(observation, true) is None,
        warned ==> latch_after(observation, warned),
{
}

/// The epoch counts rewrites and nothing else, and the compaction count
/// compactions and nothing else; neither ever goes back.
pub proof fn law_counters(
    baseline: (usize, u64, u64, u32),
    prefix_len: usize,
    fingerprint: u64,
    old_region: u64,
)
    ensures
        ({
            let event = event_of(baseline, prefix_len, old_region);
            let after = baseline_after(baseline, event, prefix_len, fingerprint);
            &&& after.2 >= baseline.2
            &&& after.3 >= baseline.3
            &&& event != EpochEvent::Rewritten ==> after.2 == baseline.2
            &&& event != EpochEvent::Reseeded ==> after.3 == baseline.3
        }),
{
}

// ---------------------------------------------------------------------------
// What is compared
// ---------------------------------------------------------------------------

/// A hash starts from the offset basis and takes in one byte after the other:
/// the byte is mixed in and the whole multiplied by the prime.
pub proof fn law_hash_by_bytes(bytes: Seq<u8>, byte: u8)
    ensures
        fnv1a(Seq::empty()) == 14695981039346656037u64,
        fnv1a(bytes.push(byte)) == (fnv1a(bytes) ^ (byte as u64)).wrapping_mul(1099511628211u64),
{
    assert(bytes.push(byte).drop_last() =~= bytes);
}

/// The text of an optional string.
pub open spec fn text_of(text: Option<String>) -> Option<Seq<char>> {
    if text is Some {
        Some(text->0@)
    } else {
        None
    }
}

/// The hash of what a request has in its first `n` messages, its system prompt
/// and its tools, serialized together.
pub open spec fn hash_of_front(req: ChatRequest, n: int) -> u64 {
    fnv1a(
        encode_utf8(
            serialized_prefix(
                text_of(req.system),
                text_of(req.tools),
                Seq::new(n as nat, |i: int| req.messages@[i]@),
            ),
        ),
    )
}

/// The fingerprint is that of system prompt, tools and the first `n` messages,
/// whatever the system prompt and the tools are; a length past the end covers
/// all messages.
pub proof fn law_fingerprint_covers(req: ChatRequest, n: int)
    requires
        0 <= n,
    ensures
        n <= req.messages@.len() ==> prefix_fingerprint(req, n) == hash_of_front(req, n),
        n > req.messages@.len() ==> prefix_fingerprint(req, n) == hash_of_front(
            req,
            req.messages@.len() as int,
        ),
{
    let m = if n <= req.messages@.len() {
        n
    } else {
        req.messages@.len() as int
    };
    assert(texts(front_of(req.messages@, n)) =~= Seq::new(
        m as nat,
        |i: int| req.messages@[i]@,
    ));
}

/// The text that is hashed is one text of any serialized prefix: its UTF-8
/// bytes, hashed.
pub proof fn law_text_fingerprint(serialized: Seq<char>)
    ensures
        text_fingerprint(serialized) == fnv1a(encode_utf8(serialized)),
{
}

/// The canonical prefix covers all messages but the newest.
pub proof fn law_prefix_length(req: ChatRequest)
    ensures
        req.messages@.len() > 0 ==> prefix_length(req) == req.messages@.len() - 1,
        req.messages@.len() == 0 ==> prefix_length(req) == 0,
{
    assert(req.messages.len() == req.messages@.len());
}

/// How many messages a request has besides the newest.
pub open spec fn all_but_newest(req: ChatRequest) -> int {
    if req.messages@.len() > 0 {
        req.messages@.len() - 1
    } else {
        0
    }
}

/// What a turn is against the baseline of its session, and what becomes of the
/// baseline. A turn with fewer messages than the baseline is a compaction. Any
/// other is stable where the first messages, as many as the baseline covered,
/// hash with system prompt and tools to what the baseline held, and a rewrite
/// where they do not.
pub proof fn law_turn_classified(
    sessions: Seq<(Seq<char>, (usize, u64, u64, u32))>,
    key: Seq<char>,
    i: int,
    req: ChatRequest,
)
    requires
        distinct_sessions(sessions),
        0 <= i < sessions.len(),
        sessions[i].0 == key,
    ensures
        ({
            let (held_len, held_hash, epoch, compactions) = sessions[i].1;
            let n = all_but_newest(req);
            let seen = observation_of(sessions, key, req);
            let after = baseline_from(sessions, key, req);
            let kept = hash_of_front(req, held_len as int) == held_hash;
            &&& seen.prefix_len == n
            &&& seen.prev_prefix_len == Some(held_len)
            &&& after == (seen.prefix_len, hash_of_front(req, n), seen.epoch, seen.compactions)
            &&& n < held_len ==> seen.event == Some(EpochEvent::Reseeded) && seen.epoch == epoch
                && seen.compactions == compactions.saturating_add(1)
            &&& n >= held_len && kept ==> seen.event == Some(EpochEvent::Stable) && seen.epoch
                == epoch && seen.compactions == compactions
            &&& n >= held_len && !kept ==> seen.event == Some(EpochEvent::Rewritten) && seen.epoch
                == epoch.saturating_add(1) && seen.compactions == compactions
        }),
{
    law_prefix_length(req);
    assert(is_cached(sessions, key));
    let p = cache_place(sessions, key);
    assert(sessions[p].0 == key);
    assert(p == i);
    let held_len = sessions[i].1.0;
    law_fingerprint_covers(req, held_len as int);
    law_fingerprint_covers(req, all_but_newest(req));
}

/// A turn of a session that no entry has starts its baseline: it is not
/// classified, and both counters are zero.
pub proof fn law_turn_seeds(
    sessions: Seq<(Seq<char>, (usize, u64, u64, u32))>,
    key: Seq<char>,
    req: ChatRequest,
)
    requires
        forall|i: int| 0 <= i < sessions.len() ==> (#[trigger] sessions[i]).0 != key,
    ensures
        ({
            let n = all_but_newest(req);
            let seen = observation_of(sessions, key, req);
            &&& seen.event is None
            &&& seen.prev_prefix_len is None
            &&& seen.epoch == 0
            &&& seen.compactions == 0
            &&& seen.prefix_len == n
            &&& baseline_from(sessions, key, req) == (
                seen.prefix_len,
                hash_of_front(req, n),
                0u64,
                0u32,
            )
        }),
{
    law_prefix_length(req);
    law_fingerprint_covers(req, all_but_newest(req));
}

/// A changed message in the old region is a rewrite: between two turns of a
/// session with the same system prompt and tools, and with a message changed
/// that the first turn's prefix covered, the second is a rewrite unless the two
/// serialized texts hash alike.
pub proof fn law_changed_message_is_rewrite(
    sessions: Seq<(Seq<char>, (usize, u64, u64, u32))>,
    limit: nat,
    key: Seq<char>,
    earlier: ChatRequest,
    later: ChatRequest,
    i: int,
)
    requires
        distinct_sessions(sessions),
        sessions.len() <= limit,
        0 < limit,
        text_of(earlier.system) == text_of(later.system),
        text_of(earlier.tools) == text_of(later.tools),
        0 <= i < earlier.messages@.len() - 1,
        earlier.messages@.len() <= later.messages@.len(),
        earlier.messages@[i]@ != later.messages@[i]@,
    ensures
        ({
            let n = earlier.messages@.len() - 1;
            let system = text_of(earlier.system);
            let tools = text_of(earlier.tools);
            let old_texts = Seq::new(n as nat, |k: int| earlier.messages@[k]@);
            let new_texts = Seq::new(n as nat, |k: int| later.messages@[k]@);
            let alike = fnv1a(encode_utf8(serialized_prefix(system, tools, old_texts))) == fnv1a(
                encode_utf8(serialized_prefix(system, tools, new_texts)),
            );
            let first = cache_with(sessions, limit, key, baseline_from(sessions, key, earlier));
            let seen = observation_of(first, key, later);
            &&& old_texts != new_texts
            &&& !alike ==> seen.event == Some(EpochEvent::Rewritten) && seen.epoch
                == observation_of(sessions, key, earlier).epoch.saturating_add(1) && warning_for(
                seen,
                false,
            ) is Some
            &&& alike ==> seen.event == Some(EpochEvent::Stable)
        }),
{
    let n = earlier.messages@.len() - 1;
    let old_texts = Seq::new(n as nat, |k: int| earlier.messages@[k]@);
    let new_texts = Seq::new(n as nat, |k: int| later.messages@[k]@);
    assert(old_texts[i] != new_texts[i]);
    law_prefix_length(earlier);
    law_prefix_length(later);
    law_fingerprint_covers(earlier, n);
    law_fingerprint_covers(later, n);
    let kept = baseline_from(sessions, key, earlier);
    lemma_cache_with(sessions, limit, key, kept);
    assert(kept.0 == n);
    assert(kept.1 == hash_of_front(earlier, n));
    assert(kept.2 == observation_of(sessions, key, earlier).epoch);
}

// ---------------------------------------------------------------------------
// What is kept
// ---------------------------------------------------------------------------

/// A put comes first. Under a key that is there it replaces that entry; where a
/// new one does not fit the last entry leaves; all others keep their order.
pub proof fn law_put_comes_first(
    sessions: Seq<(Seq<char>, (usize, u64, u64, u32))>,
    limit: nat,
    key: Seq<char>,
    value: (usize, u64, u64, u32),
    i: int,
)
    requires
        distinct_sessions(sessions),
        sessions.len() <= limit,
        0 < limit,
    ensures
        ({
            let after = cache_with(sessions, limit, key, value);
            let new = forall|k: int| 0 <= k < sessions.len() ==> (#[trigger] sessions[k]).0 != key;
            &&& after.len() > 0
            &&& after[0] == (key, value)
            &&& 0 <= i < sessions.len() && sessions[i].0 == key ==> after.drop_first()
                == sessions.take(i) + sessions.skip(i + 1)
            &&& new && sessions.len() < limit ==> after.drop_first() == sessions
            &&& new && sessions.len() == limit ==> after.drop_first() == sessions.take(
                sessions.len() - 1,
            )
        }),
{
    let after = cache_with(sessions, limit, key, value);
    if 0 <= i < sessions.len() && sessions[i].0 == key {
        assert(is_cached(sessions, key));
        let p = cache_place(sessions, key);
        assert(sessions[p].0 == key);
        assert(p == i);
        assert(after.drop_first() =~= sessions.take(i) + sessions.skip(i + 1));
    }
    if !is_cached(sessions, key) {
        if sessions.len() < limit {
            assert(after.drop_first() =~= sessions);
        } else {
            assert(after.drop_first() =~= sessions.take(sessions.len() - 1));
        }
    }
}

/// Using a session moves it to the front and changes nothing else.
pub proof fn law_use_comes_first(
    sessions: Seq<(Seq<char>, (usize, u64, u64, u32))>,
    key: Seq<char>,
    i: int,
)
    requires
        distinct_sessions(sessions),
    ensures
        0 <= i < sessions.len() && sessions[i].0 == key ==> cache_touched(sessions, key)
            == seq![sessions[i]] + sessions.take(i) + sessions.skip(i + 1),
        (forall|k: int| 0 <= k < sessions.len() ==> (#[trigger] sessions[k]).0 != key)
            ==> cache_touched(sessions, key) == sessions,
        0 <= i < sessions.len() && sessions[i].0 == key ==> is_cached(sessions, key)
            && cached_value(sessions, key) == sessions[i].1,
{
    if 0 <= i < sessions.len() && sessions[i].0 == key {
        assert(is_cached(sessions, key));
        let p = cache_place(sessions, key);
        assert(sessions[p].0 == key);
        assert(p == i);
        assert(cache_touched(sessions, key) =~= seq![sessions[i]] + sessions.take(i)
            + sessions.skip(i + 1));
    }
}

// ---------------------------------------------------------------------------
// What is reported
// ---------------------------------------------------------------------------

/// What a second access reports is what the turn is against the baseline.
pub proof fn law_classification(
    held: (usize, u64, u64, u32),
    prefix_len: usize,
    fingerprint: u64,
    old_region: u64,
)
    ensures
        ({
            let seen = classified(held, prefix_len, fingerprint, old_region);
            let after = baseline_after(
                held,
                event_of(held, prefix_len, old_region),
                prefix_len,
                fingerprint,
            );
            &&& seen.prefix_len == prefix_len
            &&& seen.prev_prefix_len == Some(held.0)
            &&& after == (prefix_len, fingerprint, seen.epoch, seen.compactions)
            &&& prefix_len < held.0 ==> seen.event == Some(EpochEvent::Reseeded) && seen.epoch
                == held.2 && seen.compactions == held.3.saturating_add(1)
            &&& prefix_len >= held.0 && old_region == held.1 ==> seen.event == Some(
                EpochEvent::Stable,
            ) && seen.epoch == held.2 && seen.compactions == held.3
            &&& prefix_len >= held.0 && old_region != held.1 ==> seen.event == Some(
                EpochEvent::Rewritten,
            ) && seen.epoch == held.2.saturating_add(1) && seen.compactions == held.3
        }),
        ({
            let seen = first_sight(prefix_len);
            &&& seen.event is None
            &&& seen.prev_prefix_len is None
            &&& seen.epoch == 0
            &&& seen.compactions == 0
            &&& seen.prefix_len == prefix_len
            &&& first_baseline(prefix_len, fingerprint) == (prefix_len, fingerprint, 0u64, 0u32)
        }),
{
}

/// The first rewrite is warned of, with the lengths of both turns and the
/// epoch, and sets the latch; nothing else sets it.
pub proof fn law_rewrite_warned(observation: EpochObservation, previous: usize, warned: bool)
    ensures
        observation.event == Some(EpochEvent::Rewritten) && observation.prev_prefix_len == Some(
            previous,
        ) ==> {
            let warning = warning_for(observation, false);
            &&& warning is Some
            &&& warning->0.previous_prefix_len == previous
            &&& warning->0.prefix_len == observation.prefix_len
            &&& warning->0.epoch == observation.epoch
            &&& latch_after(observation, warned)
        },
        observation.event != Some(EpochEvent::Rewritten) ==> warning_for(observation, warned)
            is None && latch_after(observation, warned) == warned,
        warning_for(observation, true) is None,
{
}

/// The advisory codes: zero for stable, one for a rewrite, two for a
/// compaction.
pub proof fn law_advisory_codes(event: EpochEvent)
    ensures
        event.advisory() == 0 <==> event is Stable,
        event.advisory() == 1 <==> event is Rewritten,
        event.advisory() == 2 <==> event is Reseeded,
{
}

/// The bound on the sessions tracked at once.
pub proof fn law_capacity()
    ensures
        PREFIX_REWRITE_CAPACITY == 1024,
{
}

} // verus!
