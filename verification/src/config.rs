//! The configuration that a router is built from, as its logic reads it.

use vstd::prelude::*;

use crate::json::Json;
use crate::names::NameTable;

verus! {

/// The runtime gate knobs of one provider entry.
#[derive(Clone, Copy, PartialEq, Eq, Structural, Debug)]
pub struct RuntimePolicy {
    /// Requests admitted per minute; unset means unlimited.
    pub rpm_limit: Option<u32>,
    /// Consecutive failures that open the circuit; unset disables it.
    pub circuit_failures: Option<u32>,
}

impl Default for RuntimePolicy {
    fn default() -> (out: Self)
        ensures
            out == unset_policy(),
    {
        RuntimePolicy { rpm_limit: None, circuit_failures: None }
    }
}

/// The policy of an entry that sets no knob.
pub open spec fn unset_policy() -> RuntimePolicy {
    RuntimePolicy { rpm_limit: None, circuit_failures: None }
}

/// One `[providers.X]` entry.
pub struct ProviderEntry {
    /// Stable token of the provider's kind; empty when it has none.
    pub kind: &'static str,
    /// Headers that every request to this provider carries.
    pub header_extras: NameTable<String>,
    /// Payload that every request to this provider carries.
    pub payload_extras: Option<Json>,
    /// The runtime gate knobs.
    pub runtime: RuntimePolicy,
    /// The base URL to forward to, set where the entry authenticates with the
    /// client's own bearer.
    pub forwarded_base_url: Option<String>,
    /// Whether a rejection can be attributed to the configured upstream: a
    /// remote base reached with the router's own credential.
    pub attributable: bool,
}

/// One `[models.X]` entry.
pub struct ModelEntry {
    /// The provider or pool that serves the model.
    pub provider: String,
    /// The model id on the wire.
    pub upstream: String,
    /// The configured output ceiling; unset and zero both mean none.
    pub max_output_tokens: Option<u32>,
}

/// What an `[aliases]` key stands for.
pub enum AliasValue {
    /// One target.
    Single(String),
    /// Targets in the order in which they are tried.
    Chain(Vec<String>),
}

/// What an alias value is.
pub enum AliasView {
    /// One target.
    Single(Seq<char>),
    /// Targets in the order in which they are tried.
    Chain(Seq<Seq<char>>),
}

impl View for AliasValue {
    type V = AliasView;

    open spec fn view(&self) -> AliasView {
        match *self {
            AliasValue::Single(target) => AliasView::Single(target@),
            AliasValue::Chain(targets) => AliasView::Chain(crate::text::texts(targets@)),
        }
    }
}

impl AliasValue {
    /// An alias value with the same shape and the same targets.
    pub fn copy(&self) -> (out: AliasValue)
        ensures
            out@ == self@,
    {
        match self {
            AliasValue::Single(target) => AliasValue::Single(target.clone()),
            AliasValue::Chain(targets) => {
                let copied = crate::text::copy_list(targets);
                AliasValue::Chain(copied)
            },
        }
    }
}

/// How a pool picks the seat that a request starts at.
#[derive(Clone, Copy, PartialEq, Eq, Structural, Debug)]
pub enum SeatSelection {
    /// Always the first usable seat.
    FillFirst,
    /// The next seat in turn.
    RoundRobin,
    /// The seat that the session is pinned to.
    StickyLeastLoaded,
}

/// One `[pools.X]` entry.
pub struct PoolEntry {
    /// The members' `[providers]` keys in declared order.
    pub members: Vec<String>,
    /// How the pool picks the seat that a request starts at.
    pub seat_selection: SeatSelection,
}

/// The configuration of a router.
pub struct Config {
    /// `[providers]`.
    pub providers: NameTable<ProviderEntry>,
    /// `[models]`.
    pub models: NameTable<ModelEntry>,
    /// `[aliases]`.
    pub aliases: NameTable<AliasValue>,
    /// `[pools]`.
    pub pools: NameTable<PoolEntry>,
    /// `[fidelity.paid_probe_daily_caps]`.
    pub paid_probe_daily_caps: NameTable<u32>,
    /// The `[calibration]` kill switch: off disables every correction.
    pub calibration_enabled: bool,
}

impl Config {
    /// Whether the named entry authenticates with the client's own bearer.
    pub open spec fn forwards(&self, name: Seq<char>) -> bool {
        self.providers.map().dom().contains(name)
            && self.providers.map()[name].forwarded_base_url is Some
    }

    /// The runtime policy of the named entry, or the unset one.
    pub open spec fn policy_of(&self, name: Seq<char>) -> RuntimePolicy {
        if self.providers.map().dom().contains(name) {
            self.providers.map()[name].runtime
        } else {
            unset_policy()
        }
    }

    /// The kind token of the named provider entry.
    pub open spec fn entry_kind(&self, name: Seq<char>) -> Option<Seq<char>> {
        if self.providers.map().dom().contains(name) {
            Some(self.providers.map()[name].kind@)
        } else {
            None
        }
    }

    /// The kind token of a target's provider, or of the lead member where the
    /// target is served by a pool; empty where there is none.
    pub open spec fn kind_of(&self, name: Seq<char>) -> Seq<char> {
        let lead = if self.entry_kind(name) is None && self.pools.map().dom().contains(name)
            && self.pools.map()[name].members@.len() > 0 {
            self.pools.map()[name].members@[0]@
        } else {
            name
        };
        match self.entry_kind(lead) {
            Some(kind) => kind,
            None => Seq::empty(),
        }
    }

    /// Whether the named pool picks its seats in turn.
    pub open spec fn rotates(&self, pool: Seq<char>) -> bool {
        self.pools.map().dom().contains(pool) && self.pools.map()[pool].seat_selection
            == SeatSelection::RoundRobin
    }

    /// A configuration with nothing in it.
    pub fn empty() -> (out: Config)
        ensures
            out.providers@.len() == 0,
            out.providers.map() == Map::<Seq<char>, ProviderEntry>::empty(),
            out.models.map() == Map::<Seq<char>, ModelEntry>::empty(),
            out.aliases@.len() == 0,
            out.pools.map() == Map::<Seq<char>, PoolEntry>::empty(),
            out.paid_probe_daily_caps.map() == Map::<Seq<char>, u32>::empty(),
            out.calibration_enabled,
    {
        Config {
            providers: NameTable::new(),
            models: NameTable::new(),
            aliases: NameTable::new(),
            pools: NameTable::new(),
            paid_probe_daily_caps: NameTable::new(),
            calibration_enabled: true,
        }
    }

    /// Whether the named entry authenticates with the client's own bearer.
    pub fn is_forwarded(&self, name: &str) -> (yes: bool)
        ensures
            yes == self.forwards(name@),
    {
        match self.providers.get(name) {
            Some(entry) => entry.forwarded_base_url.is_some(),
            None => false,
        }
    }

    /// The runtime policy of the named entry, or the unset one.
    pub fn runtime_policy(&self, name: &str) -> (policy: RuntimePolicy)
        ensures
            policy == self.policy_of(name@),
            self.providers.map().dom().contains(name@) ==> policy
                == self.providers.map()[name@].runtime,
            !self.providers.map().dom().contains(name@) ==> policy.rpm_limit is None
                && policy.circuit_failures is None,
    {
        match self.providers.get(name) {
            Some(entry) => entry.runtime,
            None => RuntimePolicy::default(),
        }
    }

    /// The kind token of the named provider entry.
    pub fn provider_entry_kind(&self, name: &str) -> (kind: Option<&'static str>)
        ensures
            (match kind {
                Some(k) => Some(k@),
                None => None,
            }) == self.entry_kind(name@),
    {
        match self.providers.get(name) {
            Some(entry) => Some(entry.kind),
            None => None,
        }
    }

    /// The kind token of a target's provider, or of the lead member where the
    /// target is served by a pool; empty where there is none.
    pub fn provider_kind_for_target(&self, name: &str) -> (kind: &'static str)
        ensures
            kind@ == self.kind_of(name@),
    {
        proof {
            reveal_strlit("");
            assert(""@ =~= Seq::<char>::empty());
        }
        match self.provider_entry_kind(name) {
            Some(kind) => kind,
            None => match self.pools.get(name) {
                Some(pool) => {
                    if pool.members.len() == 0 {
                        return "";
                    }
                    match self.provider_entry_kind(pool.members[0].as_str()) {
                        Some(kind) => kind,
                        None => "",
                    }
                },
                None => "",
            },
        }
    }

    /// Whether the named pool picks its seats in turn.
    pub fn is_round_robin(&self, pool: &str) -> (yes: bool)
        ensures
            yes == self.rotates(pool@),
    {
        match self.pools.get(pool) {
            Some(entry) => entry.seat_selection == SeatSelection::RoundRobin,
            None => false,
        }
    }
}

} // verus!
