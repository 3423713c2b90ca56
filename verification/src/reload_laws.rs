//! Laws of building and replacing a router, and of the evidence that it keeps.

use std::sync::Arc;

use vstd::prelude::*;
use vstd::utf8::encode_utf8;

use crate::config::AliasValue;
use crate::config::Config;
use crate::prefix_rewrite::fnv1a;
use crate::reload::adopted;
use crate::reload::is_membership;
use crate::reload::last_retiring;
use crate::reload::members_of;
use crate::reload::moved_pins;
use crate::reload::pin_views;
use crate::reload::repicked;
use crate::reload::retires;
use crate::reload::shares_ledger;
use crate::reload::survivor_table;
use crate::reload::text_map;
use crate::resolved::ResolvedModel;
use crate::router::any_forwarded;
use crate::router::globs_of;
use crate::router::is_prefix_pattern;
use crate::router::own_stores;
use crate::router::provider_slots;
use crate::router::rejected_keys;
use crate::router::StoreOrigins;
use crate::samples::caller_cohort;
use crate::samples::known_lanes;
use crate::samples::known_samples;
use crate::samples::lane_views;
use crate::samples::sample_views;
use crate::samples::CalibrationSample;
use crate::samples::LaneKey;
use crate::samples::SampleView;
use crate::text::comes_before;
use crate::text::lemma_order_irreflexive;
use crate::text::lemma_order_total;
use crate::text::lemma_order_transitive;
use crate::text::texts;

verus! {

// ---------------------------------------------------------------------------
// Replacing a router
// ---------------------------------------------------------------------------

/// A replacement keeps the runtime gate, or the cursor, of every key that survives,
/// starts afresh on new keys, and holds none that its own configuration does
/// not: reloads do not pile up keys.
pub proof fn law_adoption<V>(fresh: Map<Seq<char>, V>, previous: Map<Seq<char>, V>, key: Seq<char>)
    ensures
        adopted(fresh, previous).dom() == fresh.dom(),
        fresh.dom().contains(key) && previous.dom().contains(key) ==> adopted(fresh, previous)[key]
            == previous[key],
        fresh.dom().contains(key) && !previous.dom().contains(key) ==> adopted(
            fresh,
            previous,
        )[key] == fresh[key],
{
    assert(adopted(fresh, previous).dom() =~= fresh.dom());
}

/// The stores after every take-over of a reload.
pub open spec fn all_carried(fresh: StoreOrigins, previous: StoreOrigins) -> StoreOrigins {
    let sticky = StoreOrigins { sticky_pins: previous.sticky_pins, ..fresh };
    let k = StoreOrigins {
        k_session_store: previous.k_session_store,
        k_estimator: previous.k_session_store,
        ..sticky
    };
    let epochs = StoreOrigins {
        prefix_epochs: previous.prefix_epochs,
        rewrite_latch: previous.rewrite_latch,
        ..k
    };
    let metrics = StoreOrigins { metrics: previous.metrics, ..epochs };
    let calibration = StoreOrigins { calibration: previous.calibration, ..metrics };
    let quota = StoreOrigins { quota: previous.quota, ..calibration };
    StoreOrigins { probe_board: previous.probe_board, ..quota }
}

/// A reload that takes over everything leaves the replacement on the very
/// stores of the router that it replaces, but for the shadow monitor, which
/// starts afresh. So nothing that lands while both serve is lost.
pub proof fn law_reload_shares_stores(serial: u64, previous: StoreOrigins)
    requires
        previous.k_estimator == previous.k_session_store,
    ensures
        all_carried(own_stores(serial), previous) == (StoreOrigins {
            shadow_store: serial,
            ..previous
        }),
{
}

/// The estimator always reads the windows that samples are recorded into:
/// in a new router, and through every take-over.
pub proof fn law_estimator_bound(serial: u64, fresh: StoreOrigins, previous: StoreOrigins)
    ensures
        own_stores(serial).k_estimator == own_stores(serial).k_session_store,
        all_carried(fresh, previous).k_estimator == all_carried(fresh, previous).k_session_store,
{
}

// ---------------------------------------------------------------------------
// Pins
// ---------------------------------------------------------------------------

proof fn lemma_pool_named<P>(
    models: Seq<(Seq<char>, Arc<ResolvedModel<P>>)>,
    pool: Seq<char>,
)
    requires
        members_of(models, pool) is Some,
    ensures
        exists|i: int| 0 <= i < models.len() && (#[trigger] models[i]).1.provider_name@ == pool,
    decreases models.len(),
{
    let shorter = models.drop_last();
    if members_of(shorter, pool) is Some {
        lemma_pool_named(shorter, pool);
        let i = choose|i: int|
            0 <= i < shorter.len() && (#[trigger] shorter[i]).1.provider_name@ == pool;
        assert(models[i] == shorter[i]);
    } else {
        assert(models[models.len() - 1].1.provider_name@ == pool);
    }
}

proof fn lemma_greatest_pool<P>(
    before: Seq<(Seq<char>, Arc<ResolvedModel<P>>)>,
    after: Seq<(Seq<char>, Arc<ResolvedModel<P>>)>,
    member: Seq<char>,
    n: int,
) -> (greatest: Seq<char>)
    requires
        0 <= n <= before.len(),
        exists|i: int|
            0 <= i < n && retires(
                before,
                after,
                (#[trigger] before[i]).1.provider_name@,
                member,
            ),
    ensures
        retires(before, after, greatest, member),
        forall|i: int|
            0 <= i < n && retires(
                before,
                after,
                (#[trigger] before[i]).1.provider_name@,
                member,
            ) ==> before[i].1.provider_name@ == greatest || comes_before(
                before[i].1.provider_name@,
                greatest,
            ),
    decreases n,
{
    let last = before[n - 1].1.provider_name@;
    let earlier = exists|i: int|
        0 <= i < n - 1 && retires(
            before,
            after,
            (#[trigger] before[i]).1.provider_name@,
            member,
        );
    if !earlier {
        last
    } else {
        let held = lemma_greatest_pool(before, after, member, n - 1);
        if !retires(before, after, last, member) {
            held
        } else {
            lemma_order_total(held, last);
            if comes_before(held, last) {
                assert forall|i: int|
                    0 <= i < n && retires(
                        before,
                        after,
                        (#[trigger] before[i]).1.provider_name@,
                        member,
                    ) implies before[i].1.provider_name@ == last || comes_before(
                    before[i].1.provider_name@,
                    last,
                ) by {
                    let name = before[i].1.provider_name@;
                    if i < n - 1 && name != held {
                        lemma_order_transitive(name, held, last);
                    }
                }
                last
            } else {
                held
            }
        }
    }
}

/// A pin is moved only off a member that left a pool that still serves, and it
/// ends on a member that this pool has now. A member that left nothing keeps
/// its pins.
pub proof fn law_pins_follow_their_pool<P>(
    before: Seq<(Seq<char>, Arc<ResolvedModel<P>>)>,
    after: Seq<(Seq<char>, Arc<ResolvedModel<P>>)>,
    member: Seq<char>,
)
    ensures
        survivor_table(before, after).dom().contains(member) ==> exists|pool: Seq<char>| #[trigger]
            retires(before, after, pool, member) && members_of(after, pool)->0.contains(
                survivor_table(before, after)[member],
            ) && survivor_table(before, after)[member] != member,
        (forall|pool: Seq<char>| !#[trigger] retires(before, after, pool, member))
            ==> !survivor_table(before, after).dom().contains(member),
{
    if survivor_table(before, after).dom().contains(member) {
        let some = choose|pool: Seq<char>| #[trigger] retires(before, after, pool, member);
        lemma_pool_named(before, some);
        let i = choose|i: int|
            0 <= i < before.len() && (#[trigger] before[i]).1.provider_name@ == some;
        assert(retires(before, after, before[i].1.provider_name@, member));
        let greatest = lemma_greatest_pool(before, after, member, before.len() as int);
        assert forall|other: Seq<char>| #[trigger]
            retires(before, after, other, member) implies other == greatest || comes_before(
            other,
            greatest,
        ) by {
            lemma_pool_named(before, other);
            let j = choose|j: int|
                0 <= j < before.len() && (#[trigger] before[j]).1.provider_name@ == other;
            assert(retires(before, after, before[j].1.provider_name@, member));
        }
        assert(last_retiring(before, after, greatest, member));
        let pool = choose|pool: Seq<char>| #[trigger] last_retiring(before, after, pool, member);
        assert(retires(before, after, pool, member));
        let members = members_of(after, pool)->0;
        assert(members.contains(members[0]));
    }
}

/// Reconciling pins keeps every pin under its key, and leaves those of members
/// that did not retire as they were.
pub proof fn law_repick_keeps_the_rest(
    pins: Seq<(Seq<char>, Seq<char>)>,
    survivors: Map<Seq<char>, Seq<char>>,
    i: int,
)
    requires
        0 <= i < pins.len(),
    ensures
        repicked(pins, survivors).len() == pins.len(),
        repicked(pins, survivors)[i].0 == pins[i].0,
        !survivors.dom().contains(pins[i].1) ==> repicked(pins, survivors)[i] == pins[i],
{
}

// ---------------------------------------------------------------------------
// Members and survivors
// ---------------------------------------------------------------------------

/// The members of a pool are those of the first model that it serves, seat by
/// seat in declared order; a pool that serves none has no members.
pub proof fn law_members_of_first_model<P>(
    models: Seq<(Seq<char>, Arc<ResolvedModel<P>>)>,
    pool: Seq<char>,
    i: int,
)
    ensures
        0 <= i < models.len() && models[i].1.seats is Some && models[i].1.provider_name@ == pool
            && (forall|k: int|
            0 <= k < i ==> (#[trigger] models[k]).1.seats is None || models[k].1.provider_name@
                != pool) ==> {
            let seats = models[i].1.seats->0@;
            let members = members_of(models, pool);
            &&& members is Some
            &&& members->0.len() == seats.len()
            &&& forall|j: int|
                0 <= j < seats.len() ==> #[trigger] members->0[j] == seats[j].provider_name@
        },
        (forall|k: int|
            0 <= k < models.len() ==> (#[trigger] models[k]).1.seats is None
                || models[k].1.provider_name@ != pool) ==> members_of(models, pool) is None,
    decreases models.len(),
{
    if models.len() > 0 {
        let shorter = models.drop_last();
        let n = models.len() - 1;
        assert(models.last() == models[n]);
        assert forall|k: int| 0 <= k < n implies (#[trigger] shorter[k]) == models[k] by {}
        law_members_of_first_model(shorter, pool, i);
        if 0 <= i < models.len() && (forall|k: int|
            0 <= k < i ==> (#[trigger] models[k]).1.seats is None || models[k].1.provider_name@
                != pool) {
            assert forall|k: int| 0 <= k < i && k < n implies (#[trigger] shorter[k]).1.seats
                is None || shorter[k].1.provider_name@ != pool by {
                assert(models[k].1.seats is None || models[k].1.provider_name@ != pool);
            }
        }
        if forall|k: int|
            0 <= k < models.len() ==> (#[trigger] models[k]).1.seats is None
                || models[k].1.provider_name@ != pool {
            assert forall|k: int| 0 <= k < n implies (#[trigger] shorter[k]).1.seats is None
                || shorter[k].1.provider_name@ != pool by {
                assert(models[k].1.seats is None || models[k].1.provider_name@ != pool);
            }
            assert(models[n].1.seats is None || models[n].1.provider_name@ != pool);
        }
    }
}

/// A table of members holds the members of every pool and no other pool.
pub proof fn law_membership_table<P>(
    table: Map<Seq<char>, Vec<String>>,
    models: Seq<(Seq<char>, Arc<ResolvedModel<P>>)>,
    pool: Seq<char>,
)
    requires
        is_membership(table, models),
    ensures
        table.dom().contains(pool) <==> members_of(models, pool) is Some,
        table.dom().contains(pool) ==> texts(table[pool]@) == members_of(models, pool)->0,
{
    assert(table.dom().contains(pool) == (members_of(models, pool) is Some));
}

/// A member retires from a pool exactly if it was one of the pool's, is none
/// now, and the pool still has one.
pub proof fn law_retirement<P>(
    before: Seq<(Seq<char>, Arc<ResolvedModel<P>>)>,
    after: Seq<(Seq<char>, Arc<ResolvedModel<P>>)>,
    pool: Seq<char>,
    member: Seq<char>,
)
    ensures
        retires(before, after, pool, member) <==> {
            let were = members_of(before, pool);
            let are = members_of(after, pool);
            &&& were is Some
            &&& are is Some
            &&& exists|i: int| 0 <= i < were->0.len() && #[trigger] were->0[i] == member
            &&& are->0.len() > 0
            &&& forall|i: int| 0 <= i < are->0.len() ==> #[trigger] are->0[i] != member
        },
{
    let were = members_of(before, pool);
    let are = members_of(after, pool);
    if were is Some && are is Some {
        if were->0.contains(member) {
            let i = were->0.index_of(member);
            assert(were->0[i] == member);
        }
        if exists|i: int| 0 <= i < are->0.len() && #[trigger] are->0[i] == member {
            let i = choose|i: int| 0 <= i < are->0.len() && #[trigger] are->0[i] == member;
            assert(are->0.contains(member));
        }
        if are->0.contains(member) {
            let i = are->0.index_of(member);
            assert(are->0[i] == member);
        }
        if exists|i: int| 0 <= i < were->0.len() && #[trigger] were->0[i] == member {
            let i = choose|i: int| 0 <= i < were->0.len() && #[trigger] were->0[i] == member;
            assert(were->0.contains(member));
        }
    }
}

/// The pins of a retired member go to the first member of the pool that it
/// left, and of several pools to that of the last in the order of names. No
/// other member has a survivor.
pub proof fn law_survivor_is_first_of_last_pool<P>(
    before: Seq<(Seq<char>, Arc<ResolvedModel<P>>)>,
    after: Seq<(Seq<char>, Arc<ResolvedModel<P>>)>,
    pool: Seq<char>,
    member: Seq<char>,
)
    ensures
        retires(before, after, pool, member) ==> survivor_table(before, after).dom().contains(
            member,
        ),
        retires(before, after, pool, member) && (forall|other: Seq<char>| #[trigger]
            retires(before, after, other, member) ==> other == pool || comes_before(other, pool))
            ==> survivor_table(before, after)[member] == members_of(after, pool)->0[0],
        survivor_table(before, after).dom().contains(member) ==> exists|other: Seq<char>| #[trigger]
            retires(before, after, other, member),
{
    if retires(before, after, pool, member) && (forall|other: Seq<char>| #[trigger]
        retires(before, after, other, member) ==> other == pool || comes_before(other, pool)) {
        assert(last_retiring(before, after, pool, member));
        let chosen = choose|q: Seq<char>| #[trigger] last_retiring(before, after, q, member);
        if chosen != pool {
            assert(retires(before, after, chosen, member));
            assert(comes_before(chosen, pool));
            assert(comes_before(pool, chosen));
            lemma_order_transitive(pool, chosen, pool);
            lemma_order_irreflexive(pool);
        }
    }
}

/// A pin of a retired member is moved to the survivor, and any other stays;
/// each pin keeps its key and its place.
pub proof fn law_each_pin(
    pins: Seq<(Seq<char>, Seq<char>)>,
    survivors: Map<Seq<char>, Seq<char>>,
    i: int,
)
    requires
        0 <= i < pins.len(),
    ensures
        ({
            let after = repicked(pins, survivors);
            &&& after.len() == pins.len()
            &&& after[i].0 == pins[i].0
            &&& survivors.dom().contains(pins[i].1) ==> after[i].1 == survivors[pins[i].1]
            &&& !survivors.dom().contains(pins[i].1) ==> after[i].1 == pins[i].1
        }),
{
}

/// A pin counts as moved exactly if its member is retired.
pub proof fn law_moves_counted(
    pins: Seq<(Seq<char>, Seq<char>)>,
    pin: (Seq<char>, Seq<char>),
    survivors: Map<Seq<char>, Seq<char>>,
)
    ensures
        moved_pins(Seq::empty(), survivors) == 0,
        survivors.dom().contains(pin.1) ==> moved_pins(pins.push(pin), survivors) == moved_pins(
            pins,
            survivors,
        ) + 1,
        !survivors.dom().contains(pin.1) ==> moved_pins(pins.push(pin), survivors) == moved_pins(
            pins,
            survivors,
        ),
{
    assert(pins.push(pin).drop_last() =~= pins);
}

/// What pins and survivors are read as: the texts that they hold.
pub proof fn law_pins_read(
    pins: Seq<(String, String)>,
    table: Map<Seq<char>, String>,
    i: int,
    name: Seq<char>,
)
    ensures
        pin_views(pins).len() == pins.len(),
        0 <= i < pins.len() ==> pin_views(pins)[i] == (pins[i].0@, pins[i].1@),
        text_map(table).dom() == table.dom(),
        table.dom().contains(name) ==> text_map(table)[name] == table[name]@,
{
    assert(text_map(table).dom() =~= table.dom());
}

/// The ledger of a replacement is the one that the replaced router held: there
/// is one exactly if there was one, and it is a clone of that handle.
pub proof fn law_ledger_shared<L: Clone>(ours: Option<L>, theirs: Option<L>)
    requires
        shares_ledger(ours, theirs),
    ensures
        ours is Some <==> theirs is Some,
        ours is Some ==> cloned(theirs->0, ours->0),
{
}

// ---------------------------------------------------------------------------
// A new router
// ---------------------------------------------------------------------------

/// A router that shares nothing has every store to itself.
pub proof fn law_own_stores(serial: u64)
    ensures
        ({
            let own = own_stores(serial);
            &&& own.sticky_pins == serial
            &&& own.k_session_store == serial
            &&& own.k_estimator == serial
            &&& own.shadow_store == serial
            &&& own.prefix_epochs == serial
            &&& own.rewrite_latch == serial
            &&& own.calibration == serial
            &&& own.quota == serial
            &&& own.metrics == serial
            &&& own.probe_board == serial
        }),
{
}

/// A new router has a gate for every provider entry and for no other name, each
/// its own and under the entry's policy in every knob.
pub proof fn law_starting_gates(config: Config, serial: u64, name: Seq<char>)
    ensures
        ({
            let gates = provider_slots(config, serial);
            let entries = config.providers.map();
            &&& gates.dom().contains(name) <==> entries.dom().contains(name)
            &&& entries.dom().contains(name) ==> gates[name].origin == serial
                && gates[name].policy.rpm_limit == entries[name].runtime.rpm_limit
                && gates[name].policy.circuit_failures == entries[name].runtime.circuit_failures
        }),
{
}

/// A provider is forwarded exactly if some entry has a base URL to forward to.
pub proof fn law_any_forwarded(config: Config)
    ensures
        any_forwarded(config) <==> exists|name: Seq<char>|
            #![trigger config.providers.map()[name]]
            config.providers.map().dom().contains(name)
                && config.providers.map()[name].forwarded_base_url is Some,
{
    if any_forwarded(config) {
        let name = choose|name: Seq<char>| config.forwards(name);
        assert(config.providers.map()[name].forwarded_base_url is Some);
    }
    if exists|name: Seq<char>|
        #![trigger config.providers.map()[name]]
        config.providers.map().dom().contains(name)
            && config.providers.map()[name].forwarded_base_url is Some {
        let name = choose|name: Seq<char>|
            #![trigger config.providers.map()[name]]
            config.providers.map().dom().contains(name)
                && config.providers.map()[name].forwarded_base_url is Some;
        assert(config.forwards(name));
    }
}

/// A key is a pattern exactly if its last character is its only star and
/// something stands before it.
pub proof fn law_prefix_pattern(key: Seq<char>)
    ensures
        is_prefix_pattern(key) <==> key.len() > 1 && (forall|i: int|
            0 <= i < key.len() ==> (#[trigger] key[i] == '*' <==> i == key.len() - 1)),
{
    if is_prefix_pattern(key) {
        assert forall|i: int| 0 <= i < key.len() implies (#[trigger] key[i] == '*' <==> i
            == key.len() - 1) by {
            if i < key.len() - 1 && key[i] == '*' {
                assert(key.drop_last()[i] == '*');
            }
        }
    }
    if key.len() > 1 && (forall|i: int|
        0 <= i < key.len() ==> (#[trigger] key[i] == '*' <==> i == key.len() - 1)) {
        assert(key[key.len() - 1] == '*');
        if key.drop_last().contains('*') {
            let i = key.drop_last().index_of('*');
            assert(key[i] == '*');
        }
    }
}

/// One more alias adds its pattern behind the others exactly if its key is one,
/// with what stands before the star and what the alias stands for; and its key
/// to the rejected ones exactly if it holds a star and is no pattern.
pub proof fn law_aliases_read_in_order(
    aliases: Seq<(Seq<char>, AliasValue)>,
    alias: (Seq<char>, AliasValue),
)
    ensures
        ({
            let key = alias.0;
            let pattern = key.len() > 1 && (forall|i: int|
                0 <= i < key.len() ==> (#[trigger] key[i] == '*' <==> i == key.len() - 1));
            let more = aliases.push(alias);
            &&& globs_of(Seq::empty()).len() == 0
            &&& rejected_keys(Seq::empty()).len() == 0
            &&& pattern ==> globs_of(more) == globs_of(aliases).push(
                (key.take(key.len() - 1), alias.1@),
            ) && rejected_keys(more) == rejected_keys(aliases)
            &&& !pattern ==> globs_of(more) == globs_of(aliases)
            &&& !pattern && key.contains('*') ==> rejected_keys(more) == rejected_keys(
                aliases,
            ).push(key)
            &&& !key.contains('*') ==> rejected_keys(more) == rejected_keys(aliases)
        }),
{
    let key = alias.0;
    law_prefix_pattern(key);
    assert(aliases.push(alias).drop_last() =~= aliases);
    if key.len() > 0 {
        assert(key.drop_last() =~= key.take(key.len() - 1));
    }
    if is_prefix_pattern(key) {
        assert(key[key.len() - 1] == '*');
    }
}

// ---------------------------------------------------------------------------
// Evidence
// ---------------------------------------------------------------------------

/// One more lane, and one more observation, is kept behind the others exactly
/// if its model is known.
pub proof fn law_evidence_kept_in_order<P>(
    lanes: Seq<(Seq<char>, Seq<char>)>,
    lane: (Seq<char>, Seq<char>),
    samples: Seq<SampleView>,
    sample: SampleView,
    models: Map<Seq<char>, Arc<ResolvedModel<P>>>,
)
    ensures
        known_lanes(Seq::empty(), models).len() == 0,
        models.dom().contains(lane.1) ==> known_lanes(lanes.push(lane), models) == known_lanes(
            lanes,
            models,
        ).push(lane),
        !models.dom().contains(lane.1) ==> known_lanes(lanes.push(lane), models) == known_lanes(
            lanes,
            models,
        ),
        known_samples(Seq::empty(), models).len() == 0,
        models.dom().contains(sample.nickname) ==> known_samples(samples.push(sample), models)
            == known_samples(samples, models).push(sample),
        !models.dom().contains(sample.nickname) ==> known_samples(samples.push(sample), models)
            == known_samples(samples, models),
{
    assert(lanes.push(lane).drop_last() =~= lanes);
    assert(samples.push(sample).drop_last() =~= samples);
}

/// What lanes and observations are read as: all that they hold.
pub proof fn law_evidence_read(
    lanes: Seq<LaneKey>,
    samples: Seq<CalibrationSample>,
    i: int,
)
    ensures
        lane_views(lanes).len() == lanes.len(),
        0 <= i < lanes.len() ==> lane_views(lanes)[i] == (
            lanes[i].provider_kind@,
            lanes[i].nickname@,
        ),
        sample_views(samples).len() == samples.len(),
        0 <= i < samples.len() ==> {
            let view = sample_views(samples)[i];
            &&& view.provider_kind == samples[i].lane.provider_kind@
            &&& view.nickname == samples[i].lane.nickname@
            &&& view.estimated_tokens == samples[i].estimated_tokens
            &&& view.prompt_tokens == samples[i].prompt_tokens
            &&& view.cohort == samples[i].cohort
            &&& view.observed_at == samples[i].observed_at
        },
{
}

/// The cohort of a caller is the hash of its session key, and a caller without
/// a session key has none.
pub proof fn law_cohort(key: Seq<char>)
    ensures
        caller_cohort(Some(key)) == Some(fnv1a(encode_utf8(key))),
        caller_cohort(None) is None,
{
}

} // verus!
