//! The bounded cache of per-session baselines, least recently used out first.
//!
//! A cached value is the tuple of prefix length, fingerprint, epoch and
//! compaction count.

use lru::LruCache;

use vstd::prelude::*;

verus! {

/// `lru::LruCache`, opaque: what it holds is spoken of by
/// [`cached_sessions`] and [`cache_limit`].
#[verifier::external_type_specification]
#[verifier::external_body]
#[verifier::reject_recursive_types(K)]
#[verifier::reject_recursive_types(V)]
#[verifier::reject_recursive_types(S)]
pub struct ExLruCache<K, V, S>(lru::LruCache<K, V, S>);

/// `lru::DefaultHasher`, the hasher that an `LruCache` is made with.
#[verifier::external_type_specification]
#[verifier::external_body]
pub struct ExDefaultHasher(lru::DefaultHasher);

/// What a cache holds, most recently used first.
pub uninterp spec fn cached_sessions(
    cache: LruCache<String, (usize, u64, u64, u32)>,
) -> Seq<(Seq<char>, (usize, u64, u64, u32))>;

/// How many entries a cache may hold.
pub uninterp spec fn cache_limit(cache: LruCache<String, (usize, u64, u64, u32)>) -> nat;

/// Whether an entry has this key.
pub open spec fn is_cached<V>(entries: Seq<(Seq<char>, V)>, key: Seq<char>) -> bool {
    exists|i: int| 0 <= i < entries.len() && (#[trigger] entries[i]).0 == key
}

/// The place of the entry with this key.
pub open spec fn cache_place<V>(entries: Seq<(Seq<char>, V)>, key: Seq<char>) -> int {
    choose|i: int| 0 <= i < entries.len() && (#[trigger] entries[i]).0 == key
}

/// The value under this key.
pub open spec fn cached_value<V>(entries: Seq<(Seq<char>, V)>, key: Seq<char>) -> V {
    entries[cache_place(entries, key)].1
}

/// The entries without the one under this key.
pub open spec fn cache_without<V>(entries: Seq<(Seq<char>, V)>, key: Seq<char>) -> Seq<
    (Seq<char>, V),
> {
    if is_cached(entries, key) {
        entries.remove(cache_place(entries, key))
    } else {
        entries
    }
}

/// The entries after `key` was used: its entry comes first.
pub open spec fn cache_touched<V>(entries: Seq<(Seq<char>, V)>, key: Seq<char>) -> Seq<
    (Seq<char>, V),
> {
    if is_cached(entries, key) {
        seq![(key, cached_value(entries, key))] + cache_without(entries, key)
    } else {
        entries
    }
}

/// The entries after `value` was put under `key`: that entry comes first, and
/// where a new one does not fit the least recently used leaves.
pub open spec fn cache_with<V>(
    entries: Seq<(Seq<char>, V)>,
    limit: nat,
    key: Seq<char>,
    value: V,
) -> Seq<(Seq<char>, V)> {
    if is_cached(entries, key) {
        seq![(key, value)] + cache_without(entries, key)
    } else if entries.len() == limit {
        seq![(key, value)] + entries.drop_last()
    } else {
        seq![(key, value)] + entries
    }
}

/// `LruCache::new`: an empty cache that holds at most `limit` entries. The
/// space is allocated at once, which is why the limit is bounded here.
#[verifier::external_body]
pub(crate) fn cache_new(limit: usize) -> (cache: LruCache<String, (usize, u64, u64, u32)>)
    requires
        0 < limit <= 0x10000,
    ensures
        cached_sessions(cache) == Seq::<(Seq<char>, (usize, u64, u64, u32))>::empty(),
        cache_limit(cache) == limit,
{
    LruCache::new(std::num::NonZeroUsize::new(limit).unwrap())
}

/// `LruCache::get`: the value under `key`, whose entry becomes the most
/// recently used.
#[verifier::external_body]
pub(crate) fn cache_get(
    cache: &mut LruCache<String, (usize, u64, u64, u32)>,
    key: &str,
) -> (value: Option<(usize, u64, u64, u32)>)
    ensures
        value == (if is_cached(cached_sessions(*old(cache)), key@) {
            Some(cached_value(cached_sessions(*old(cache)), key@))
        } else {
            None
        }),
        cached_sessions(*final(cache)) == cache_touched(cached_sessions(*old(cache)), key@),
        cache_limit(*final(cache)) == cache_limit(*old(cache)),
{
    cache.get(key).copied()
}

/// `LruCache::put`: puts `value` under `key` as the most recently used entry.
/// Where the key is new and the cache is full, the least recently used entry
/// leaves.
#[verifier::external_body]
pub(crate) fn cache_put(
    cache: &mut LruCache<String, (usize, u64, u64, u32)>,
    key: String,
    value: (usize, u64, u64, u32),
)
    ensures
        cached_sessions(*final(cache)) == cache_with(
            cached_sessions(*old(cache)),
            cache_limit(*old(cache)),
            key@,
            value,
        ),
        cache_limit(*final(cache)) == cache_limit(*old(cache)),
{
    cache.put(key, value);
}

/// `LruCache::peek`: the value under `key`, leaving the order alone.
#[verifier::external_body]
pub(crate) fn cache_peek(
    cache: &LruCache<String, (usize, u64, u64, u32)>,
    key: &str,
) -> (value: Option<(usize, u64, u64, u32)>)
    ensures
        value == (if is_cached(cached_sessions(*cache), key@) {
            Some(cached_value(cached_sessions(*cache), key@))
        } else {
            None
        }),
{
    cache.peek(key).copied()
}

/// `LruCache::len`: how many entries the cache holds.
#[verifier::external_body]
pub(crate) fn cache_len(cache: &LruCache<String, (usize, u64, u64, u32)>) -> (n: usize)
    ensures
        n == cached_sessions(*cache).len(),
{
    cache.len()
}

/// `LruCache::iter`: the keys, most recently used first.
#[verifier::external_body]
pub(crate) fn cache_keys(cache: &LruCache<String, (usize, u64, u64, u32)>) -> (keys: Vec<String>)
    ensures
        keys@.len() == cached_sessions(*cache).len(),
        forall|i: int| 0 <= i < keys@.len() ==> (#[trigger] keys@[i])@ == cached_sessions(*cache)[i].0,
{
    cache.iter().map(|(key, _)| key.clone()).collect()
}

/// Whether no two entries have the same key.
pub open spec fn distinct_sessions<V>(entries: Seq<(Seq<char>, V)>) -> bool {
    forall|i: int, j: int|
        0 <= i < entries.len() && 0 <= j < entries.len() && i != j ==> (
        #[trigger] entries[i]).0 != (#[trigger] entries[j]).0
}

/// A put keeps the keys distinct and the bound, holds the new value under its
/// key, and leaves the values under the keys that stay as they were.
pub proof fn lemma_cache_with<V>(
    entries: Seq<(Seq<char>, V)>,
    limit: nat,
    key: Seq<char>,
    value: V,
)
    requires
        distinct_sessions(entries),
        entries.len() <= limit,
        0 < limit,
    ensures
        distinct_sessions(cache_with(entries, limit, key, value)),
        cache_with(entries, limit, key, value).len() <= limit,
        is_cached(cache_with(entries, limit, key, value), key),
        cached_value(cache_with(entries, limit, key, value), key) == value,
        forall|other: Seq<char>|
            other != key && #[trigger] is_cached(cache_with(entries, limit, key, value), other)
                ==> is_cached(entries, other) && cached_value(
                cache_with(entries, limit, key, value),
                other,
            ) == cached_value(entries, other),
        is_cached(entries, key) || entries.len() < limit ==> forall|other: Seq<char>| #[trigger]
            is_cached(entries, other) ==> is_cached(
                cache_with(entries, limit, key, value),
                other,
            ),
{
    let after = cache_with(entries, limit, key, value);
    let rest = if is_cached(entries, key) {
        cache_without(entries, key)
    } else if entries.len() == limit {
        entries.drop_last()
    } else {
        entries
    };
    let at = cache_place(entries, key);
    let cut = if is_cached(entries, key) {
        at
    } else {
        entries.len() as int
    };
    assert(after =~= seq![(key, value)] + rest);
    assert forall|i: int| 0 <= i < rest.len() implies #[trigger] rest[i] == entries[if i < cut {
        i
    } else {
        i + 1
    }] by {}
    assert forall|i: int| 0 <= i < rest.len() implies (#[trigger] rest[i]).0 != key by {
        if is_cached(entries, key) {
            assert(entries[at].0 == key);
        }
        let j = if i < cut {
            i
        } else {
            i + 1
        };
        assert(rest[i] == entries[j]);
        assert(entries[j].0 != key);
    }
    assert forall|i: int, j: int|
        0 <= i < after.len() && 0 <= j < after.len() && i != j implies (#[trigger] after[i]).0 != (
    #[trigger] after[j]).0 by {
        if i > 0 {
            assert(after[i] == rest[i - 1]);
        }
        if j > 0 {
            assert(after[j] == rest[j - 1]);
        }
    }
    assert(after[0].0 == key);
    assert(is_cached(after, key));
    let p = cache_place(after, key);
    assert(after[p].0 == key);
    assert(p == 0);
    assert forall|other: Seq<char>| other != key && #[trigger] is_cached(after, other) implies
        is_cached(entries, other) && cached_value(after, other) == cached_value(entries, other) by {
        let i = cache_place(after, other);
        assert(after[i].0 == other);
        assert(after[i] == rest[i - 1]);
        let j = if i - 1 < cut {
            i - 1
        } else {
            i
        };
        assert(entries[j] == rest[i - 1]);
        assert(entries[j].0 == other);
        let q = cache_place(entries, other);
        assert(entries[q].0 == other);
    }
    if is_cached(entries, key) || entries.len() < limit {
        assert forall|other: Seq<char>| #[trigger] is_cached(entries, other) implies is_cached(
            after,
            other,
        ) by {
            if other != key {
                let j = cache_place(entries, other);
                assert(entries[j].0 == other);
                let i = if j < cut {
                    j
                } else {
                    j - 1
                };
                assert(rest[i] == entries[j]);
                assert(after[i + 1] == rest[i]);
            }
        }
    }
}

/// Using a key puts its own value under it again, as the most recently used.
pub proof fn lemma_cache_touched<V>(entries: Seq<(Seq<char>, V)>, limit: nat, key: Seq<char>)
    requires
        is_cached(entries, key),
    ensures
        cache_touched(entries, key) == cache_with(
            entries,
            limit,
            key,
            cached_value(entries, key),
        ),
{
}

/// Putting under one key twice in a row leaves the second value only.
pub proof fn lemma_cache_with_again<V>(
    entries: Seq<(Seq<char>, V)>,
    limit: nat,
    key: Seq<char>,
    first: V,
    second: V,
)
    requires
        distinct_sessions(entries),
        entries.len() <= limit,
        0 < limit,
    ensures
        cache_with(cache_with(entries, limit, key, first), limit, key, second) == cache_with(
            entries,
            limit,
            key,
            second,
        ),
{
    let once = cache_with(entries, limit, key, first);
    lemma_cache_with(entries, limit, key, first);
    let p = cache_place(once, key);
    assert(once[p].0 == key);
    assert(once[0].0 == key);
    assert(p == 0);
    assert(once.remove(0) =~= once.drop_first());
    assert(cache_with(once, limit, key, second) =~= cache_with(entries, limit, key, second));
}

} // verus!
