//! The routing table: what a router holds, how it is built, and what a
//! replacement router takes over from the one that it replaces.
//!
//! State that outlives a reload lives in stores that routers share. A store is
//! named by the serial of the router that it was made for, and two routers
//! share a store when they name the same one.

use std::sync::Arc;

use vstd::prelude::*;

use crate::config::AliasValue;
use crate::config::AliasView;
use crate::config::Config;
use crate::config::RuntimePolicy;
use crate::metrics::PoolOmissionReason;
use crate::names::lemma_entry;
use crate::names::lemma_named;
use crate::names::map_of;
use crate::names::ordered;
use crate::names::place_of;
use crate::names::NameTable;
use crate::resolved::EffectiveRow;
use crate::resolved::ResolvedModel;
use crate::text::chars_of;
use crate::text::texts;

verus! {

/// The deepest nesting of aliases that is still resolved.
pub const ALIAS_MAX_RECURSION_DEPTH: usize = 8;

/// The version of the catalog that the router is built with.
pub const CATALOG_VERSION: u32 = 1;

/// One runtime gate: the policy it was made with, and the serial of the router
/// that it was made for. Its own counters live under its key and that
/// serial.
#[derive(Clone, Copy, PartialEq, Eq, Structural, Debug)]
pub struct StateSlot {
    /// The serial of the router that this runtime gate was made for.
    pub origin: u64,
    /// Its policy.
    pub policy: RuntimePolicy,
}

/// Which store a router uses for each kind of shared state, by the serial of
/// the router that the store was made for.
#[derive(Clone, Copy, PartialEq, Eq, Structural, Debug)]
pub struct StoreOrigins {
    /// Session to pool member pins.
    pub sticky_pins: u64,
    /// Cache-reuse windows.
    pub k_session_store: u64,
    /// The windows that the reuse estimator reads.
    pub k_estimator: u64,
    /// Last fingerprints of the shadow monitor.
    pub shadow_store: u64,
    /// Baselines of the prefix-rewrite detector.
    pub prefix_epochs: u64,
    /// The latch of the rewrite warning.
    pub rewrite_latch: u64,
    /// Token-estimate evidence.
    pub calibration: u64,
    /// Quota readings.
    pub quota: u64,
    /// Observability counters.
    pub metrics: u64,
    /// Publication ticket, paid-probe candidates and probe lanes.
    pub probe_board: u64,
}

/// The stores of a router that shares none.
pub open spec fn own_stores(serial: u64) -> StoreOrigins {
    StoreOrigins {
        sticky_pins: serial,
        k_session_store: serial,
        k_estimator: serial,
        shadow_store: serial,
        prefix_epochs: serial,
        rewrite_latch: serial,
        calibration: serial,
        quota: serial,
        metrics: serial,
        probe_board: serial,
    }
}

/// The catalog overlay that a router was built against.
pub struct CatalogOverlay {
    /// Its revision.
    pub revision: u64,
    /// The cells that it states, by model.
    pub cells: NameTable<EffectiveRow>,
}

/// A member that a pool was built without.
pub struct PoolOmission {
    /// The member's `[providers]` key.
    pub member: String,
    /// Why it was left out.
    pub reason: PoolOmissionReason,
}

/// How one pool was built.
pub struct PoolReport {
    /// The pool's name.
    pub pool: String,
    /// The members that it was built without.
    pub omissions: Vec<PoolOmission>,
}

/// An alias pattern that stands for every name with a prefix.
pub struct AliasGlob {
    /// The prefix.
    pub prefix: String,
    /// What the pattern stands for.
    pub value: AliasValue,
}

/// The routing table. `P` is the provider that a target is called through and
/// `L` a handle on the ledger that pays for probes.
pub struct Router<P, L> {
    /// The serial of this router, its own among all routers of the process.
    pub serial: u64,
    /// The configuration that the router was built from.
    pub config: Arc<Config>,
    /// Providers by name.
    pub providers: NameTable<Arc<P>>,
    /// Runtime gates by state key.
    pub state: NameTable<StateSlot>,
    /// Resolved models by nickname.
    pub resolved_models: NameTable<Arc<ResolvedModel<P>>>,
    /// The alias patterns, in the order of their keys.
    pub alias_globs: Vec<AliasGlob>,
    /// The cursor of each pool that picks its seats in turn, by the serial of
    /// the router that it was made for.
    pub round_robin: NameTable<u64>,
    /// Which stores the router uses.
    pub stores: StoreOrigins,
    /// The catalog version that the router was built against.
    pub catalog_version: u32,
    /// The revision of the catalog overlay.
    pub overlay_revision: u64,
    /// The catalog overlay.
    pub catalog_overlay: Arc<CatalogOverlay>,
    /// Whether a provider entry authenticates with the client's own bearer.
    pub has_forwarded_provider: bool,
    /// How the pools were built.
    pub pool_reports: Vec<PoolReport>,
    /// The ledger that pays for probes, where one is installed.
    pub paid_probe_ledger: Option<L>,
    /// The publication that the router was last stamped with.
    pub probe_incarnation: u64,
}

// ---------------------------------------------------------------------------
// Construction
// ---------------------------------------------------------------------------

/// Whether an alias key is a pattern: a non-empty prefix followed by the one
/// and only star.
pub open spec fn is_prefix_pattern(key: Seq<char>) -> bool {
    &&& key.len() >= 2
    &&& key.last() == '*'
    &&& !key.drop_last().contains('*')
}

/// The patterns among alias entries, each with its prefix, in order.
pub open spec fn globs_of(aliases: Seq<(Seq<char>, AliasValue)>) -> Seq<
    (Seq<char>, AliasView),
>
    decreases aliases.len(),
{
    if aliases.len() == 0 {
        Seq::empty()
    } else {
        let before = globs_of(aliases.drop_last());
        let key = aliases.last().0;
        if is_prefix_pattern(key) {
            before.push((key.drop_last(), aliases.last().1@))
        } else {
            before
        }
    }
}

/// What a list of patterns stands for.
pub open spec fn glob_views(globs: Seq<AliasGlob>) -> Seq<(Seq<char>, AliasView)> {
    globs.map_values(|g: AliasGlob| (g.prefix@, g.value@))
}

/// The alias keys with a star in a place where none is allowed, in order.
pub open spec fn rejected_keys(aliases: Seq<(Seq<char>, AliasValue)>) -> Seq<Seq<char>>
    decreases aliases.len(),
{
    if aliases.len() == 0 {
        Seq::empty()
    } else {
        let before = rejected_keys(aliases.drop_last());
        let key = aliases.last().0;
        if key.contains('*') && !is_prefix_pattern(key) {
            before.push(key)
        } else {
            before
        }
    }
}

/// How an alias key reads.
pub enum AliasPattern {
    /// A name as it stands.
    Exact,
    /// Every name with this prefix.
    Prefix(String),
    /// A star in a place where none is allowed.
    Invalid,
}

/// Reads an alias key. A star is allowed only once, last, and behind a prefix.
pub fn parse_alias_pattern(key: &str) -> (pattern: AliasPattern)
    ensures
        match pattern {
            AliasPattern::Exact => !key@.contains('*'),
            AliasPattern::Prefix(prefix) => is_prefix_pattern(key@) && prefix@ == key@.drop_last(),
            AliasPattern::Invalid => key@.contains('*') && !is_prefix_pattern(key@),
        },
{
    let chars = chars_of(key);
    let n = chars.len();
    let mut first: usize = 0;
    while first < n && chars[first] != '*'
        invariant
            n == chars.len(),
            chars@ == key@,
            first <= n,
            forall|i: int| 0 <= i < first ==> key@[i] != '*',
        decreases n - first,
    {
        first = first + 1;
    }
    if first == n {
        return AliasPattern::Exact;
    }
    assert(key@[first as int] == '*');
    if n >= 2 && first == n - 1 {
        assert(key@.subrange(0, first as int) =~= key@.drop_last());
        AliasPattern::Prefix(key.substring_char(0, first).to_owned())
    } else {
        proof {
            if is_prefix_pattern(key@) && first < n - 1 {
                assert(key@.drop_last()[first as int] == '*');
            }
        }
        AliasPattern::Invalid
    }
}

/// Whether an entry of the table authenticates with the client's own bearer.
pub open spec fn any_forwarded(config: Config) -> bool {
    exists|name: Seq<char>| config.forwards(name)
}

/// The gates that a router starts with: one per provider entry.
pub open spec fn provider_slots(config: Config, serial: u64) -> Map<Seq<char>, StateSlot> {
    Map::new(
        |name: Seq<char>| config.providers.map().dom().contains(name),
        |name: Seq<char>|
            StateSlot { origin: serial, policy: config.providers.map()[name].runtime },
    )
}

impl<P, L> Router<P, L> {
    /// A router over `config`, with a gate per provider entry and stores of
    /// its own. `serial` is to be its own among all routers of the process.
    pub fn new(config: Arc<Config>, serial: u64) -> (out: Self)
        ensures
            out.serial == serial,
            out.config == config,
            out.providers.map() == Map::<Seq<char>, Arc<P>>::empty(),
            out.state.map() == provider_slots(*config, serial),
            out.resolved_models@.len() == 0,
            out.resolved_models.map() == Map::<Seq<char>, Arc<ResolvedModel<P>>>::empty(),
            glob_views(out.alias_globs@) == globs_of(config.aliases@),
            out.round_robin.map() == Map::<Seq<char>, u64>::empty(),
            out.stores == own_stores(serial),
            out.catalog_version == CATALOG_VERSION,
            out.overlay_revision == 0,
            out.catalog_overlay.revision == 0,
            out.catalog_overlay.cells.map() == Map::<Seq<char>, EffectiveRow>::empty(),
            out.has_forwarded_provider == any_forwarded(*config),
            out.pool_reports@.len() == 0,
            out.paid_probe_ledger is None,
            out.probe_incarnation == 1,
    {
        let (state, has_forwarded_provider) = starting_state(&config, serial);
        let alias_globs = starting_globs(&config);
        Router {
            serial,
            config,
            providers: NameTable::new(),
            state,
            resolved_models: NameTable::new(),
            alias_globs,
            round_robin: NameTable::new(),
            stores: StoreOrigins {
                sticky_pins: serial,
                k_session_store: serial,
                k_estimator: serial,
                shadow_store: serial,
                prefix_epochs: serial,
                rewrite_latch: serial,
                calibration: serial,
                quota: serial,
                metrics: serial,
                probe_board: serial,
            },
            catalog_version: CATALOG_VERSION,
            overlay_revision: 0,
            catalog_overlay: Arc::new(CatalogOverlay { revision: 0, cells: NameTable::new() }),
            has_forwarded_provider,
            pool_reports: Vec::new(),
            paid_probe_ledger: None,
            probe_incarnation: 1,
        }
    }

    /// Whether a provider entry authenticates with the client's own bearer,
    /// decided when the router was built.
    pub fn has_forwarded_provider(&self) -> (yes: bool)
        ensures
            yes == self.has_forwarded_provider,
    {
        self.has_forwarded_provider
    }
}

/// A gate per provider entry, and whether one of them is forwarded.
fn starting_state(config: &Config, serial: u64) -> (out: (NameTable<StateSlot>, bool))
    ensures
        out.0.map() == provider_slots(*config, serial),
        out.1 == any_forwarded(*config),
{
    let mut state: NameTable<StateSlot> = NameTable::new();
    let mut forwarded: bool = false;
    let n = config.providers.len();
    let ghost entries = config.providers@;
    let mut i: usize = 0;
    while i < n
        invariant
            entries == config.providers@,
            n == entries.len(),
            i <= n,
            ordered(entries),
            forall|name: Seq<char>| #[trigger]
                state.map().dom().contains(name) <==> (map_of(entries).dom().contains(name)
                    && place_of(entries, name) < i),
            forall|name: Seq<char>| #[trigger]
                state.map().dom().contains(name) ==> state.map()[name] == (StateSlot {
                    origin: serial,
                    policy: map_of(entries)[name].runtime,
                }),
            forwarded <==> (exists|j: int|
                0 <= j < i && (#[trigger] entries[j]).1.forwarded_base_url is Some),
        decreases n - i,
    {
        proof {
            lemma_entry(entries, i as int);
        }
        let name = config.providers.name_at(i);
        let entry = config.providers.value_at(i);
        let ghost added = name@;
        state.insert(name.to_owned(), StateSlot { origin: serial, policy: entry.runtime });
        if entry.forwarded_base_url.is_some() {
            assert(entries[i as int].1.forwarded_base_url is Some);
            forwarded = true;
        }
        i = i + 1;
        assert forall|other: Seq<char>| #[trigger]
            state.map().dom().contains(other) <==> (map_of(entries).dom().contains(other)
            && place_of(entries, other) < i) by {
            if map_of(entries).dom().contains(other) {
                lemma_named(entries, other);
            }
        }
    }
    proof {
        assert(state.map() =~= provider_slots(*config, serial)) by {
            assert forall|name: Seq<char>| #[trigger] state.map().dom().contains(name)
                == provider_slots(*config, serial).dom().contains(name) by {
                if map_of(entries).dom().contains(name) {
                    lemma_named(entries, name);
                }
            }
        }
        if forwarded {
            let j = choose|j: int|
                0 <= j < i && (#[trigger] entries[j]).1.forwarded_base_url is Some;
            lemma_entry(entries, j);
            assert(config.forwards(entries[j].0));
        }
        if any_forwarded(*config) {
            let name = choose|name: Seq<char>| config.forwards(name);
            lemma_named(entries, name);
            assert(entries[place_of(entries, name)].1.forwarded_base_url is Some);
        }
    }
    (state, forwarded)
}

/// The alias patterns of a configuration, in the order of their keys.
fn starting_globs(config: &Config) -> (globs: Vec<AliasGlob>)
    ensures
        glob_views(globs@) == globs_of(config.aliases@),
{
    let mut globs: Vec<AliasGlob> = Vec::new();
    let n = config.aliases.len();
    let ghost aliases = config.aliases@;
    let mut i: usize = 0;
    assert(aliases.take(0) =~= Seq::<(Seq<char>, AliasValue)>::empty());
    assert(glob_views(globs@) =~= Seq::<(Seq<char>, AliasView)>::empty());
    while i < n
        invariant
            aliases == config.aliases@,
            n == aliases.len(),
            i <= n,
            glob_views(globs@) == globs_of(aliases.take(i as int)),
        decreases n - i,
    {
        assert(aliases.take(i as int + 1).drop_last() =~= aliases.take(i as int));
        let ghost before = glob_views(globs@);
        match parse_alias_pattern(config.aliases.name_at(i)) {
            AliasPattern::Prefix(prefix) => {
                let value = config.aliases.value_at(i).copy();
                let ghost added = (prefix@, value@);
                globs.push(AliasGlob { prefix, value });
                assert(glob_views(globs@) =~= before.push(added));
            },
            AliasPattern::Exact => {
                proof {
                    let key = aliases[i as int].0;
                    if is_prefix_pattern(key) {
                        assert(key[key.len() - 1] == '*');
                        assert(key.contains('*'));
                    }
                }
            },
            AliasPattern::Invalid => {},
        }
        i = i + 1;
    }
    assert(aliases.take(i as int) =~= aliases);
    globs
}

/// The alias keys that a router over this configuration ignores, because they
/// hold a star in a place where none is allowed.
pub fn rejected_alias_keys(config: &Config) -> (keys: Vec<String>)
    ensures
        texts(keys@) == rejected_keys(config.aliases@),
{
    let mut keys: Vec<String> = Vec::new();
    let n = config.aliases.len();
    let ghost aliases = config.aliases@;
    let mut i: usize = 0;
    assert(aliases.take(0) =~= Seq::<(Seq<char>, AliasValue)>::empty());
    assert(texts(keys@) =~= Seq::<Seq<char>>::empty());
    while i < n
        invariant
            aliases == config.aliases@,
            n == aliases.len(),
            i <= n,
            texts(keys@) == rejected_keys(aliases.take(i as int)),
        decreases n - i,
    {
        assert(aliases.take(i as int + 1).drop_last() =~= aliases.take(i as int));
        let ghost before = texts(keys@);
        let key = config.aliases.name_at(i);
        match parse_alias_pattern(key) {
            AliasPattern::Invalid => {
                keys.push(key.to_owned());
                assert(texts(keys@) =~= before.push(key@));
            },
            _ => {},
        }
        i = i + 1;
    }
    assert(aliases.take(i as int) =~= aliases);
    keys
}

} // verus!
