//! What a replacement router takes over from the one that it replaces.

use std::sync::Arc;

use vstd::prelude::*;

use crate::metrics::bumped;
use crate::metrics::bumped_by;
use crate::metrics::RouterMetrics;
use crate::names::lemma_entry;
use crate::names::lemma_name_count;
use crate::names::lemma_named;
use crate::names::map_of;
use crate::names::ordered;
use crate::names::place_of;
use crate::names::NameTable;
use crate::resolved::ResolvedModel;
use crate::resolved::SeatTarget;
use crate::router::Router;
use crate::router::StoreOrigins;
use crate::text::comes_before;
use crate::text::holds;
use crate::text::lemma_order_irreflexive;
use crate::text::lemma_order_transitive;
use crate::text::texts;

verus! {

// ---------------------------------------------------------------------------
// Gates and cursors
// ---------------------------------------------------------------------------

/// `fresh` with what `previous` holds under the names that both hold.
pub open spec fn adopted<V>(fresh: Map<Seq<char>, V>, previous: Map<Seq<char>, V>) -> Map<
    Seq<char>,
    V,
> {
    Map::new(
        |name: Seq<char>| fresh.dom().contains(name),
        |name: Seq<char>|
            if previous.dom().contains(name) {
                previous[name]
            } else {
                fresh[name]
            },
    )
}

/// Takes over what `previous` holds under the names that both tables hold.
fn adopt<V: Copy>(fresh: &mut NameTable<V>, previous: &NameTable<V>)
    ensures
        final(fresh).map() == adopted(old(fresh).map(), previous.map()),
{
    let ghost before = fresh.map();
    let n = previous.len();
    let ghost entries = previous@;
    let mut i: usize = 0;
    while i < n
        invariant
            entries == previous@,
            n == entries.len(),
            i <= n,
            ordered(entries),
            fresh.map().dom() =~= before.dom(),
            forall|name: Seq<char>| #[trigger]
                before.dom().contains(name) ==> fresh.map()[name] == (if map_of(
                    entries,
                ).dom().contains(name) && place_of(entries, name) < i {
                    map_of(entries)[name]
                } else {
                    before[name]
                }),
        decreases n - i,
    {
        proof {
            lemma_entry(entries, i as int);
        }
        let name = previous.name_at(i);
        let ghost held = name@;
        if fresh.contains(name) {
            fresh.insert(name.to_owned(), *previous.value_at(i));
        }
        i = i + 1;
        assert forall|other: Seq<char>| #[trigger] before.dom().contains(other) implies fresh.map()[other]
            == (if map_of(entries).dom().contains(other) && place_of(entries, other) < i {
            map_of(entries)[other]
        } else {
            before[other]
        }) by {
            if map_of(entries).dom().contains(other) {
                lemma_named(entries, other);
            }
        }
    }
    assert(fresh.map() =~= adopted(before, previous.map())) by {
        assert forall|name: Seq<char>| #[trigger] before.dom().contains(name) implies fresh.map()[name]
            == adopted(before, previous.map())[name] by {
            if map_of(entries).dom().contains(name) {
                lemma_named(entries, name);
            }
        }
    }
}

// ---------------------------------------------------------------------------
// Pool membership
// ---------------------------------------------------------------------------

/// The members that some seats are of, in order.
pub open spec fn member_names<P>(seats: Seq<SeatTarget<P>>) -> Seq<Seq<char>> {
    seats.map_values(|s: SeatTarget<P>| s.provider_name@)
}

/// The usable members of a pool in declared order, as the first model of the
/// pool in the order of nicknames has them.
pub open spec fn members_of<P>(
    models: Seq<(Seq<char>, Arc<ResolvedModel<P>>)>,
    pool: Seq<char>,
) -> Option<Seq<Seq<char>>>
    decreases models.len(),
{
    if models.len() == 0 {
        None
    } else {
        match members_of(models.drop_last(), pool) {
            Some(members) => Some(members),
            None => match models.last().1.seats {
                Some(seats) => if models.last().1.provider_name@ == pool {
                    Some(member_names(seats@))
                } else {
                    None
                },
                None => None,
            },
        }
    }
}

/// Whether a member of a pool left it while the pool still serves.
pub open spec fn retires<P>(
    before: Seq<(Seq<char>, Arc<ResolvedModel<P>>)>,
    after: Seq<(Seq<char>, Arc<ResolvedModel<P>>)>,
    pool: Seq<char>,
    member: Seq<char>,
) -> bool {
    match (members_of(before, pool), members_of(after, pool)) {
        (Some(were), Some(are)) => were.contains(member) && are.len() > 0 && !are.contains(member),
        _ => false,
    }
}

/// Whether `pool` is the last, in the order of names, that a member left.
pub open spec fn last_retiring<P>(
    before: Seq<(Seq<char>, Arc<ResolvedModel<P>>)>,
    after: Seq<(Seq<char>, Arc<ResolvedModel<P>>)>,
    pool: Seq<char>,
    member: Seq<char>,
) -> bool {
    &&& retires(before, after, pool, member)
    &&& forall|other: Seq<char>| #[trigger]
        retires(before, after, other, member) ==> other == pool || comes_before(other, pool)
}

/// Which member the pins of each retired member move to: the first of its pool.
/// Of several pools that it left, the last in the order of names decides.
pub open spec fn survivor_table<P>(
    before: Seq<(Seq<char>, Arc<ResolvedModel<P>>)>,
    after: Seq<(Seq<char>, Arc<ResolvedModel<P>>)>,
) -> Map<Seq<char>, Seq<char>> {
    Map::new(
        |member: Seq<char>| exists|pool: Seq<char>| #[trigger] retires(before, after, pool, member),
        |member: Seq<char>|
            {
                let pool = choose|pool: Seq<char>| #[trigger]
                    last_retiring(before, after, pool, member);
                members_of(after, pool)->0[0]
            },
    )
}

/// The texts under the names of a table of strings.
pub open spec fn text_map(table: Map<Seq<char>, String>) -> Map<Seq<char>, Seq<char>> {
    table.map_values(|s: String| s@)
}

/// The latest of the first `n` pools that a member left.
spec fn latest_pool(
    before: Seq<(Seq<char>, Vec<String>)>,
    after: Map<Seq<char>, Vec<String>>,
    n: int,
    member: Seq<char>,
) -> Option<int>
    decreases n,
{
    if n <= 0 {
        None
    } else if leaves(before[n - 1], after, member) {
        Some(n - 1)
    } else {
        latest_pool(before, after, n - 1, member)
    }
}

/// Whether a member of one pool is not among those that it has after.
spec fn leaves(
    pool: (Seq<char>, Vec<String>),
    after: Map<Seq<char>, Vec<String>>,
    member: Seq<char>,
) -> bool {
    &&& texts(pool.1@).contains(member)
    &&& after.dom().contains(pool.0)
    &&& after[pool.0]@.len() > 0
    &&& !texts(after[pool.0]@).contains(member)
}

/// What a survivor table built from the first `n` pools holds.
spec fn survivors_upto(
    table: Map<Seq<char>, String>,
    before: Seq<(Seq<char>, Vec<String>)>,
    after: Map<Seq<char>, Vec<String>>,
    n: int,
) -> bool {
    forall|member: Seq<char>| #[trigger]
        table.dom().contains(member) == (latest_pool(before, after, n, member) is Some) && (
        table.dom().contains(member) ==> table[member]@ == after[before[latest_pool(
            before,
            after,
            n,
            member,
        )->0].0]@[0]@)
}

proof fn lemma_latest(
    before: Seq<(Seq<char>, Vec<String>)>,
    after: Map<Seq<char>, Vec<String>>,
    n: int,
    member: Seq<char>,
)
    requires
        0 <= n <= before.len(),
    ensures
        match latest_pool(before, after, n, member) {
            Some(i) => 0 <= i < n && leaves(before[i], after, member) && (forall|j: int|
                i < j < n ==> !leaves(#[trigger] before[j], after, member)),
            None => forall|j: int| 0 <= j < n ==> !leaves(#[trigger] before[j], after, member),
        },
    decreases n,
{
    if n > 0 && !leaves(before[n - 1], after, member) {
        lemma_latest(before, after, n - 1, member);
    }
}

/// Whether a table is the membership of each pool of some models.
pub open spec fn is_membership<P>(
    table: Map<Seq<char>, Vec<String>>,
    models: Seq<(Seq<char>, Arc<ResolvedModel<P>>)>,
) -> bool {
    forall|pool: Seq<char>| #[trigger]
        table.dom().contains(pool) == (members_of(models, pool) is Some) && (table.dom().contains(
            pool,
        ) ==> texts(table[pool]@) == members_of(models, pool)->0)
}

proof fn lemma_survivors<P>(
    table: Map<Seq<char>, String>,
    before: Seq<(Seq<char>, Vec<String>)>,
    after: Map<Seq<char>, Vec<String>>,
    models_before: Seq<(Seq<char>, Arc<ResolvedModel<P>>)>,
    models_after: Seq<(Seq<char>, Arc<ResolvedModel<P>>)>,
)
    requires
        ordered(before),
        is_membership(map_of(before), models_before),
        is_membership(after, models_after),
        survivors_upto(table, before, after, before.len() as int),
    ensures
        text_map(table) == survivor_table(models_before, models_after),
{
    let n = before.len() as int;
    assert forall|i: int, member: Seq<char>| 0 <= i < n implies leaves(
        #[trigger] before[i],
        after,
        member,
    ) == #[trigger] retires(models_before, models_after, before[i].0, member) by {
        lemma_entry(before, i);
        let pool = before[i].0;
        assert(map_of(before).dom().contains(pool));
        if after.dom().contains(pool) {
            assert(texts(after[pool]@).len() == after[pool]@.len());
        }
    }
    assert forall|pool: Seq<char>, member: Seq<char>| #[trigger]
        retires(models_before, models_after, pool, member) implies exists|i: int|
        0 <= i < n && (#[trigger] before[i]).0 == pool && leaves(before[i], after, member) by {
        assert(map_of(before).dom().contains(pool));
        lemma_named(before, pool);
        let i = place_of(before, pool);
        assert(before[i].0 == pool);
        assert(leaves(before[i], after, member) == retires(
            models_before,
            models_after,
            before[i].0,
            member,
        ));
    }
    let expected = survivor_table(models_before, models_after);
    assert forall|member: Seq<char>| #[trigger] table.dom().contains(member)
        == expected.dom().contains(member) by {
        lemma_latest(before, after, n, member);
        if table.dom().contains(member) {
            let i = latest_pool(before, after, n, member)->0;
            assert(retires(models_before, models_after, before[i].0, member));
        }
        if expected.dom().contains(member) {
            let pool = choose|pool: Seq<char>| #[trigger]
                retires(models_before, models_after, pool, member);
            let i = choose|i: int|
                0 <= i < n && (#[trigger] before[i]).0 == pool && leaves(
                    before[i],
                    after,
                    member,
                );
            assert(leaves(before[i], after, member));
        }
    }
    assert forall|member: Seq<char>| #[trigger] table.dom().contains(member) implies table[member]@
        == expected[member] by {
        lemma_latest(before, after, n, member);
        let i = latest_pool(before, after, n, member)->0;
        let pool = before[i].0;
        assert(retires(models_before, models_after, pool, member));
        assert forall|other: Seq<char>| #[trigger]
            retires(models_before, models_after, other, member) implies other == pool
            || comes_before(other, pool) by {
            let j = choose|j: int|
                0 <= j < n && (#[trigger] before[j]).0 == other && leaves(
                    before[j],
                    after,
                    member,
                );
            assert(leaves(before[j], after, member));
            if j < i {
                assert(comes_before(before[j].0, before[i].0));
            }
        }
        assert(last_retiring(models_before, models_after, pool, member));
        let chosen = choose|q: Seq<char>| #[trigger]
            last_retiring(models_before, models_after, q, member);
        if chosen != pool {
            assert(retires(models_before, models_after, chosen, member));
            assert(comes_before(chosen, pool));
            assert(comes_before(pool, chosen));
            lemma_order_transitive(pool, chosen, pool);
            lemma_order_irreflexive(pool);
        }
        assert(after.dom().contains(pool));
        assert(texts(after[pool]@)[0] == after[pool]@[0]@);
    }
    assert(text_map(table) =~= expected);
}

fn names_of_seats<P>(seats: &Vec<SeatTarget<P>>) -> (names: Vec<String>)
    ensures
        texts(names@) == member_names(seats@),
{
    let mut names: Vec<String> = Vec::new();
    let mut i: usize = 0;
    while i < seats.len()
        invariant
            i <= seats.len(),
            names@.len() == i,
            forall|j: int| 0 <= j < i ==> (#[trigger] names@[j])@ == seats@[j].provider_name@,
        decreases seats.len() - i,
    {
        names.push(seats[i].provider_name.clone());
        i = i + 1;
    }
    assert(texts(names@) =~= member_names(seats@));
    names
}

// ---------------------------------------------------------------------------
// Pins
// ---------------------------------------------------------------------------

/// Session pins: each keeps a session of a pool on one member.
pub struct StickyPins {
    /// The pinned member under each pin key.
    pub pins: Vec<(String, String)>,
}

/// What pins are: a member under each pin key.
pub open spec fn pin_views(pins: Seq<(String, String)>) -> Seq<(Seq<char>, Seq<char>)> {
    pins.map_values(|p: (String, String)| (p.0@, p.1@))
}

/// One pin after its member was replaced, where it is retired.
pub open spec fn repicked_pin(
    pin: (Seq<char>, Seq<char>),
    survivors: Map<Seq<char>, Seq<char>>,
) -> (Seq<char>, Seq<char>) {
    if survivors.dom().contains(pin.1) {
        (pin.0, survivors[pin.1])
    } else {
        pin
    }
}

/// The pins after those of retired members were moved.
pub open spec fn repicked(
    pins: Seq<(Seq<char>, Seq<char>)>,
    survivors: Map<Seq<char>, Seq<char>>,
) -> Seq<(Seq<char>, Seq<char>)> {
    pins.map_values(|p: (Seq<char>, Seq<char>)| repicked_pin(p, survivors))
}

/// How many pins are of retired members.
pub open spec fn moved_pins(
    pins: Seq<(Seq<char>, Seq<char>)>,
    survivors: Map<Seq<char>, Seq<char>>,
) -> nat
    decreases pins.len(),
{
    if pins.len() == 0 {
        0
    } else {
        moved_pins(pins.drop_last(), survivors) + (if survivors.dom().contains(pins.last().1) {
            1nat
        } else {
            0nat
        })
    }
}

/// No more pins move than there are.
pub proof fn lemma_moved_bounded(
    pins: Seq<(Seq<char>, Seq<char>)>,
    survivors: Map<Seq<char>, Seq<char>>,
)
    ensures
        moved_pins(pins, survivors) <= pins.len(),
    decreases pins.len(),
{
    if pins.len() > 0 {
        lemma_moved_bounded(pins.drop_last(), survivors);
    }
}

impl StickyPins {
    /// Moves every pin of a retired member to the survivor; how many moved.
    pub fn repick_members(&mut self, survivors: &NameTable<String>) -> (moved: usize)
        ensures
            pin_views(final(self).pins@) == repicked(
                pin_views(old(self).pins@),
                text_map(survivors.map()),
            ),
            moved == moved_pins(pin_views(old(self).pins@), text_map(survivors.map())),
    {
        let ghost before = pin_views(self.pins@);
        let ghost table = text_map(survivors.map());
        let mut pins: Vec<(String, String)> = Vec::new();
        let mut moved: usize = 0;
        let mut i: usize = 0;
        assert(before.take(0) =~= Seq::<(Seq<char>, Seq<char>)>::empty());
        assert(pin_views(pins@) =~= repicked(before.take(0), table));
        while i < self.pins.len()
            invariant
                i <= self.pins.len(),
                before == pin_views(self.pins@),
                table == text_map(survivors.map()),
                pin_views(pins@) == repicked(before.take(i as int), table),
                moved == moved_pins(before.take(i as int), table),
                moved <= i,
            decreases self.pins.len() - i,
        {
            assert(before.take(i as int + 1).drop_last() =~= before.take(i as int));
            let ghost done = pin_views(pins@);
            let key = self.pins[i].0.clone();
            let member = &self.pins[i].1;
            match survivors.get(member.as_str()) {
                Some(survivor) => {
                    pins.push((key, survivor.clone()));
                    moved = moved + 1;
                },
                None => {
                    pins.push((key, member.clone()));
                },
            }
            assert(pin_views(pins@) =~= done.push(repicked_pin(before[i as int], table)));
            assert(repicked(before.take(i as int + 1), table) =~= done.push(
                repicked_pin(before[i as int], table),
            ));
            i = i + 1;
        }
        assert(before.take(i as int) =~= before);
        self.pins = pins;
        moved
    }
}

/// What reconciling the pools of a replacement came to.
#[derive(Clone, Copy, PartialEq, Eq, Structural, Debug)]
pub struct PoolCarryOver {
    /// Pins moved to a survivor.
    pub repicked_pins: usize,
    /// Members that left a pool that still serves.
    pub retired_members: usize,
}

/// What taking over learned capabilities came to.
#[derive(Clone, Copy, PartialEq, Eq, Structural, Debug)]
pub enum LearnedCarryOver {
    /// The catalog or its overlay changed: what was learned is dropped.
    Invalidated {
        /// Whether the catalog version changed.
        catalog_changed: bool,
        /// Whether the overlay revision changed.
        overlay_changed: bool,
    },
    /// What was learned stands: its owner imports the previous entries and then
    /// expires those that a changed override speaks against.
    Imported,
}

impl<P, L> Router<P, L> {
    /// Takes over the gates of the keys that both routers have, so that open
    /// circuits and spent buckets survive. New keys keep their fresh gates.
    pub fn carry_over_runtime_state_from(&mut self, previous: &Self)
        ensures
            final(self).state.map() == adopted(old(self).state.map(), previous.state.map()),
            *final(self) == (Router { state: final(self).state, ..*old(self) }),
    {
        adopt(&mut self.state, &previous.state);
    }

    /// Shares the pins of the previous router.
    pub fn carry_over_sticky_from(&mut self, previous: &Self)
        ensures
            *final(self) == (Router {
                stores: StoreOrigins {
                    sticky_pins: previous.stores.sticky_pins,
                    ..old(self).stores
                },
                ..*old(self)
            }),
    {
        self.stores.sticky_pins = previous.stores.sticky_pins;
    }

    /// The usable members of every pool in declared order, by pool.
    pub fn pool_membership(&self) -> (table: NameTable<Vec<String>>)
        ensures
            is_membership(table.map(), self.resolved_models@),
    {
        let mut table: NameTable<Vec<String>> = NameTable::new();
        let n = self.resolved_models.len();
        let ghost models = self.resolved_models@;
        let mut i: usize = 0;
        assert(models.take(0) =~= Seq::<(Seq<char>, Arc<ResolvedModel<P>>)>::empty());
        while i < n
            invariant
                models == self.resolved_models@,
                n == models.len(),
                i <= n,
                is_membership(table.map(), models.take(i as int)),
            decreases n - i,
        {
            let ghost done = models.take(i as int);
            let ghost more = models.take(i as int + 1);
            assert(more.drop_last() =~= done);
            let ghost before = table.map();
            let model = self.resolved_models.value_at(i);
            if let Some(seats) = &model.seats {
                table.insert_if_absent(model.rotation_key().to_owned(), names_of_seats(seats));
            }
            assert forall|pool: Seq<char>| #[trigger]
                table.map().dom().contains(pool) == (members_of(more, pool) is Some) && (
            table.map().dom().contains(pool) ==> texts(table.map()[pool]@) == members_of(
                more,
                pool,
            )->0) by {
                assert(before.dom().contains(pool) == (members_of(done, pool) is Some));
            }
            i = i + 1;
        }
        assert(models.take(i as int) =~= models);
        table
    }

    /// Which surviving member the pins of each retired member move to. A
    /// member counts as retired only where its pool still serves without it.
    pub fn retired_member_survivors(&self, previous: &Self) -> (survivors: NameTable<String>)
        ensures
            text_map(survivors.map()) == survivor_table(
                previous.resolved_models@,
                self.resolved_models@,
            ),
    {
        let current = self.pool_membership();
        let outgoing = previous.pool_membership();
        let mut survivors: NameTable<String> = NameTable::new();
        let n = outgoing.len();
        let ghost before = outgoing@;
        let ghost after = current.map();
        let mut i: usize = 0;
        while i < n
            invariant
                before == outgoing@,
                after == current.map(),
                n == before.len(),
                i <= n,
                survivors_upto(survivors.map(), before, after, i as int),
            decreases n - i,
        {
            let members = outgoing.value_at(i);
            match current.get(outgoing.name_at(i)) {
                Some(remaining) => {
                    if remaining.len() > 0 {
                        retire_members(
                            &mut survivors,
                            members,
                            remaining,
                            Ghost(before),
                            Ghost(after),
                            Ghost(i as int),
                        );
                    }
                },
                None => {},
            }
            assert(survivors_upto(survivors.map(), before, after, i as int + 1)) by {
                assert forall|member: Seq<char>| #[trigger]
                    survivors.map().dom().contains(member) == (latest_pool(
                    before,
                    after,
                    i as int + 1,
                    member,
                ) is Some) && (survivors.map().dom().contains(member) ==> survivors.map()[member]@
                    == after[before[latest_pool(before, after, i as int + 1, member)->0].0]@[0]@) by {
                    lemma_latest(before, after, i as int + 1, member);
                }
            }
            i = i + 1;
        }
        proof {
            lemma_survivors(
                survivors.map(),
                before,
                after,
                previous.resolved_models@,
                self.resolved_models@,
            );
        }
        survivors
    }

    /// Takes over the cursors of the pools that both routers have, and moves
    /// the pins of members that left a pool that still serves to the first
    /// member of that pool. Other pins stay. Each move is counted.
    ///
    /// To be called once the pins and the counters are shared.
    pub fn carry_over_pool_state_from(
        &mut self,
        previous: &Self,
        pins: &mut StickyPins,
        metrics: &mut RouterMetrics,
    ) -> (out: PoolCarryOver)
        ensures
            final(self).round_robin.map() == adopted(
                old(self).round_robin.map(),
                previous.round_robin.map(),
            ),
            *final(self) == (Router { round_robin: final(self).round_robin, ..*old(self) }),
            ({
                let survivors = survivor_table(
                    previous.resolved_models@,
                    old(self).resolved_models@,
                );
                let moved = moved_pins(pin_views(old(pins).pins@), survivors);
                &&& pin_views(final(pins).pins@) == repicked(pin_views(old(pins).pins@), survivors)
                &&& out.repicked_pins == moved
                &&& out.retired_members == survivors.dom().len()
                &&& *final(metrics) == (RouterMetrics {
                    pool_removed_pin_repick_total: bumped_by(
                        old(metrics).pool_removed_pin_repick_total,
                        moved,
                    ),
                    ..*old(metrics)
                })
            }),
    {
        adopt(&mut self.round_robin, &previous.round_robin);
        let survivors = self.retired_member_survivors(previous);
        let retired_members = survivors.len();
        let ghost pinned = pin_views(pins.pins@);
        proof {
            lemma_name_count(survivors@);
            assert(text_map(survivors.map()).dom() =~= survivors.map().dom());
        }
        if survivors.is_empty() {
            proof {
                lemma_no_survivors(survivors@, pinned);
            }
            return PoolCarryOver { repicked_pins: 0, retired_members: 0 };
        }
        let moved = pins.repick_members(&survivors);
        let ghost counted = *metrics;
        let mut i: usize = 0;
        while i < moved
            invariant
                i <= moved,
                *metrics == (RouterMetrics {
                    pool_removed_pin_repick_total: bumped_by(
                        counted.pool_removed_pin_repick_total,
                        i as nat,
                    ),
                    ..counted
                }),
            decreases moved - i,
        {
            self.note_pool_removed_pin_repick(metrics);
            i = i + 1;
        }
        PoolCarryOver { repicked_pins: moved, retired_members }
    }

    /// Shares the reuse windows of the previous router and reads the estimate
    /// from them.
    pub fn carry_over_k_store_from(&mut self, previous: &Self)
        ensures
            *final(self) == (Router {
                stores: StoreOrigins {
                    k_session_store: previous.stores.k_session_store,
                    k_estimator: previous.stores.k_session_store,
                    ..old(self).stores
                },
                ..*old(self)
            }),
    {
        self.stores.k_session_store = previous.stores.k_session_store;
        self.stores.k_estimator = self.stores.k_session_store;
    }

    /// Shares the baselines of the prefix-rewrite detector and the latch of
    /// its warning.
    pub fn carry_over_prefix_epochs_from(&mut self, previous: &Self)
        ensures
            *final(self) == (Router {
                stores: StoreOrigins {
                    prefix_epochs: previous.stores.prefix_epochs,
                    rewrite_latch: previous.stores.rewrite_latch,
                    ..old(self).stores
                },
                ..*old(self)
            }),
    {
        self.stores.prefix_epochs = previous.stores.prefix_epochs;
        self.stores.rewrite_latch = previous.stores.rewrite_latch;
    }

    /// Shares the counters of the previous router.
    pub fn carry_over_metrics_from(&mut self, previous: &Self)
        ensures
            *final(self) == (Router {
                stores: StoreOrigins { metrics: previous.stores.metrics, ..old(self).stores },
                ..*old(self)
            }),
    {
        self.stores.metrics = previous.stores.metrics;
    }

    /// Shares the quota readings of the previous router. Returns the account
    /// keys that quota may be reported for from now on.
    pub fn carry_over_quota_from(&mut self, previous: &Self) -> (accounts: Vec<String>)
        ensures
            *final(self) == (Router {
                stores: StoreOrigins { quota: previous.stores.quota, ..old(self).stores },
                ..*old(self)
            }),
            texts(accounts@) == crate::install::quota_accounts(old(self).resolved_models@),
    {
        self.stores.quota = previous.stores.quota;
        self.admit_quota_seats()
    }
}

/// Whether a router's ledger is the one that another router holds: a clone of
/// that handle, and none where the other router has none.
pub open spec fn shares_ledger<L: Clone>(ours: Option<L>, theirs: Option<L>) -> bool {
    match (ours, theirs) {
        (Some(mine), Some(other)) => cloned(other, mine),
        (None, None) => true,
        _ => false,
    }
}

impl<P, L: Clone> Router<P, L> {
    /// Decides whether what was learned may be taken over: not once the catalog
    /// or its overlay changed, in which case the drop is counted. Either way
    /// the ledger that pays for probes and the publication ticket are those of
    /// the previous router: a ledger that was installed on this router gives
    /// way, to none at all where the previous router has none.
    ///
    /// The learned entries themselves are kept outside the router. On
    /// `Imported` their owner copies the previous entries over, each with its
    /// probe slot free, and then expires those that an override of the new
    /// configuration speaks against.
    ///
    /// To be called once the counters are shared.
    pub fn carry_over_learned_from(&mut self, previous: &Self, metrics: &mut RouterMetrics) -> (out:
        LearnedCarryOver)
        ensures
            ({
                let catalog_changed = old(self).catalog_version != previous.catalog_version;
                let overlay_changed = old(self).overlay_revision != previous.overlay_revision;
                if catalog_changed || overlay_changed {
                    &&& out == (LearnedCarryOver::Invalidated { catalog_changed, overlay_changed })
                    &&& *final(metrics) == (RouterMetrics {
                        invalidations_total: bumped(old(metrics).invalidations_total),
                        ..*old(metrics)
                    })
                } else {
                    &&& out == LearnedCarryOver::Imported
                    &&& *final(metrics) == *old(metrics)
                }
            }),
            shares_ledger(final(self).paid_probe_ledger, previous.paid_probe_ledger),
            *final(self) == (Router {
                paid_probe_ledger: final(self).paid_probe_ledger,
                stores: StoreOrigins {
                    probe_board: previous.stores.probe_board,
                    ..old(self).stores
                },
                ..*old(self)
            }),
    {
        self.paid_probe_ledger = previous.paid_probe_ledger.clone();
        self.stores.probe_board = previous.stores.probe_board;
        let catalog_changed = self.catalog_version != previous.catalog_version;
        let overlay_changed = self.overlay_revision != previous.overlay_revision;
        if catalog_changed || overlay_changed {
            metrics.incr_invalidations();
            return LearnedCarryOver::Invalidated { catalog_changed, overlay_changed };
        }
        LearnedCarryOver::Imported
    }
}

proof fn lemma_no_survivors(
    survivors: Seq<(Seq<char>, String)>,
    pins: Seq<(Seq<char>, Seq<char>)>,
)
    requires
        survivors.len() == 0,
    ensures
        repicked(pins, text_map(map_of(survivors))) == pins,
        moved_pins(pins, text_map(map_of(survivors))) == 0,
    decreases pins.len(),
{
    assert(repicked(pins, text_map(map_of(survivors))) =~= pins);
    if pins.len() > 0 {
        lemma_no_survivors(survivors, pins.drop_last());
    }
}

/// Records the first of `remaining` as the survivor of every member that is
/// not among them.
fn retire_members(
    survivors: &mut NameTable<String>,
    members: &Vec<String>,
    remaining: &Vec<String>,
    Ghost(before): Ghost<Seq<(Seq<char>, Vec<String>)>>,
    Ghost(after): Ghost<Map<Seq<char>, Vec<String>>>,
    Ghost(at): Ghost<int>,
)
    requires
        0 <= at < before.len(),
        before[at].1 == *members,
        after.dom().contains(before[at].0),
        after[before[at].0] == *remaining,
        remaining@.len() > 0,
        survivors_upto(old(survivors).map(), before, after, at),
    ensures
        survivors_upto(final(survivors).map(), before, after, at + 1),
{
    let ghost held = survivors.map();
    let mut i: usize = 0;
    while i < members.len()
        invariant
            0 <= at < before.len(),
            before[at].1 == *members,
            after.dom().contains(before[at].0),
            after[before[at].0] == *remaining,
            remaining@.len() > 0,
            survivors_upto(held, before, after, at),
            i <= members.len(),
            forall|member: Seq<char>| #[trigger]
                survivors.map().dom().contains(member) == (held.dom().contains(member) || (texts(
                    members@,
                ).take(i as int).contains(member) && !texts(remaining@).contains(member))),
            forall|member: Seq<char>| #[trigger]
                survivors.map().dom().contains(member) ==> survivors.map()[member]@ == (if texts(
                    members@,
                ).take(i as int).contains(member) && !texts(remaining@).contains(member) {
                    remaining@[0]@
                } else {
                    held[member]@
                }),
        decreases members.len() - i,
    {
        let member = &members[i];
        let ghost done = texts(members@).take(i as int);
        let ghost more = texts(members@).take(i as int + 1);
        assert(more =~= done.push(member@));
        assert forall|other: Seq<char>| #[trigger] more.contains(other) == (done.contains(other)
            || other == member@) by {
            if done.contains(other) {
                let k = choose|k: int| 0 <= k < done.len() && done[k] == other;
                assert(more[k] == other);
            }
            if other == member@ {
                assert(more[i as int] == other);
            }
            if more.contains(other) && other != member@ {
                let k = choose|k: int| 0 <= k < more.len() && more[k] == other;
                assert(done[k] == other);
            }
        }
        if !holds(remaining, member.as_str()) {
            survivors.insert(member.clone(), remaining[0].clone());
        }
        i = i + 1;
    }
    assert(texts(members@).take(i as int) =~= texts(members@));
    assert forall|member: Seq<char>| #[trigger]
        survivors.map().dom().contains(member) == (latest_pool(before, after, at + 1, member)
        is Some) && (survivors.map().dom().contains(member) ==> survivors.map()[member]@
        == after[before[latest_pool(before, after, at + 1, member)->0].0]@[0]@) by {
        assert(held.dom().contains(member) == (latest_pool(before, after, at, member) is Some));
    }
}

} // verus!
