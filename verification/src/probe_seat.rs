//! The seat that a probe of a lane is sent to.

use std::sync::Arc;

use vstd::prelude::*;

use crate::config::Config;
use crate::probe::FieldVerdictKey;
use crate::resolved::composed_key;
use crate::resolved::EffectiveRow;
use crate::resolved::ResolvedModel;
use crate::router::Router;
use crate::text::same_text;

verus! {

/// The seat that a probe of a lane is sent to.
pub struct ProbeSeat<P> {
    /// The state key of the lane.
    pub state_key: String,
    /// The `[providers]` key that serves the seat.
    pub provider_name: String,
    /// The provider to call.
    pub provider: Arc<P>,
    /// The kind token of that entry, where there is one.
    pub provider_kind: Option<&'static str>,
    /// The model id on the wire.
    pub upstream: String,
    /// What the catalog says of the model.
    pub effective_row: EffectiveRow,
    /// Whether the model takes the adaptive thinking shape.
    pub supports_adaptive_thinking: bool,
    /// The configured output ceiling; zero means none.
    pub configured_output_ceiling: u32,
}

/// Whether a state key names the `j`-th seat of the `i`-th model: a model
/// without a pool by its nickname, and a member of a pool by the key composed
/// of the nickname and the member.
pub open spec fn names_seat<P>(
    models: Seq<(Seq<char>, Arc<ResolvedModel<P>>)>,
    state_key: Seq<char>,
    i: int,
    j: int,
) -> bool {
    0 <= i < models.len() && match models[i].1.seats {
        None => j == 0 && models[i].0 == state_key,
        Some(seats) => 0 <= j < seats@.len() && composed_key(
            models[i].0,
            seats@[j].provider_name@,
        ) == state_key,
    }
}

/// Whether a state key names this seat and no other.
pub open spec fn names_only<P>(
    models: Seq<(Seq<char>, Arc<ResolvedModel<P>>)>,
    state_key: Seq<char>,
    i: int,
    j: int,
) -> bool {
    &&& names_seat(models, state_key, i, j)
    &&& forall|a: int, b: int| #[trigger]
        names_seat(models, state_key, a, b) ==> a == i && b == j
}

/// The one seat that a state key names. A key that names none, and one that
/// names several, has no seat.
pub open spec fn sole_seat<P>(
    models: Seq<(Seq<char>, Arc<ResolvedModel<P>>)>,
    state_key: Seq<char>,
) -> Option<(int, int)> {
    if exists|i: int, j: int| #[trigger] names_only(models, state_key, i, j) {
        Some(choose|i: int, j: int| #[trigger] names_only(models, state_key, i, j))
    } else {
        None
    }
}

/// The `[providers]` key that serves a seat.
pub open spec fn seat_provider<P>(
    models: Seq<(Seq<char>, Arc<ResolvedModel<P>>)>,
    seat: (int, int),
) -> Seq<char> {
    match models[seat.0].1.seats {
        None => models[seat.0].1.provider_name@,
        Some(seats) => seats@[seat.1].provider_name@,
    }
}

/// Whether `out` describes this seat.
pub open spec fn describes<P>(
    out: ProbeSeat<P>,
    config: Config,
    models: Seq<(Seq<char>, Arc<ResolvedModel<P>>)>,
    state_key: Seq<char>,
    seat: (int, int),
) -> bool {
    let model = models[seat.0].1;
    &&& out.state_key@ == state_key
    &&& out.provider_name@ == seat_provider(models, seat)
    &&& out.provider == (match model.seats {
        None => model.provider,
        Some(seats) => seats@[seat.1].provider,
    })
    &&& (match out.provider_kind {
        Some(kind) => Some(kind@),
        None => None,
    }) == config.entry_kind(seat_provider(models, seat))
    &&& out.upstream@ == model.upstream@
    &&& out.effective_row == model.effective_row
    &&& out.supports_adaptive_thinking == model.supports_adaptive_thinking
    &&& out.configured_output_ceiling == model.max_output_tokens
}

/// A state key names at most one seat alone.
proof fn lemma_sole<P>(
    models: Seq<(Seq<char>, Arc<ResolvedModel<P>>)>,
    state_key: Seq<char>,
    i: int,
    j: int,
)
    requires
        names_only(models, state_key, i, j),
    ensures
        sole_seat(models, state_key) == Some((i, j)),
{
    let (a, b) = choose|a: int, b: int| #[trigger] names_only(models, state_key, a, b);
    assert(names_only(models, state_key, a, b));
    assert(names_seat(models, state_key, a, b));
}

/// A state key that names two seats names none alone.
proof fn lemma_ambiguous<P>(
    models: Seq<(Seq<char>, Arc<ResolvedModel<P>>)>,
    state_key: Seq<char>,
    i: int,
    j: int,
    a: int,
    b: int,
)
    requires
        names_seat(models, state_key, i, j),
        names_seat(models, state_key, a, b),
        i != a || j != b,
    ensures
        sole_seat(models, state_key) is None,
{
    if exists|x: int, y: int| #[trigger] names_only(models, state_key, x, y) {
        let (x, y) = choose|x: int, y: int| #[trigger] names_only(models, state_key, x, y);
        assert(names_only(models, state_key, x, y));
    }
}

impl<P, L> Router<P, L> {
    /// The place of the one seat that a state key names.
    fn seat_place(&self, state_key: &str) -> (place: Option<(usize, usize)>)
        ensures
            (match place {
                Some((i, j)) => Some((i as int, j as int)),
                None => None,
            }) == sole_seat(self.resolved_models@, state_key@),
            match place {
                Some((i, j)) => names_seat(
                    self.resolved_models@,
                    state_key@,
                    i as int,
                    j as int,
                ),
                None => true,
            },
    {
        let n = self.resolved_models.len();
        let ghost models = self.resolved_models@;
        let ghost key = state_key@;
        let mut found: Option<(usize, usize)> = None;
        let mut i: usize = 0;
        while i < n
            invariant
                models == self.resolved_models@,
                key == state_key@,
                n == models.len(),
                i <= n,
                match found {
                    Some((x, y)) => x < i && names_seat(models, key, x as int, y as int)
                        && forall|a: int, b: int|
                        a < i && #[trigger] names_seat(models, key, a, b) ==> a == x && b == y,
                    None => forall|a: int, b: int| a < i ==> !#[trigger] names_seat(models, key, a, b),
                },
            decreases n - i,
        {
            let nickname = self.resolved_models.name_at(i);
            let model = self.resolved_models.value_at(i);
            match &model.seats {
                None => {
                    if same_text(nickname, state_key) {
                        assert(names_seat(models, key, i as int, 0));
                        if let Some((x, y)) = found {
                            proof {
                                lemma_ambiguous(models, key, x as int, y as int, i as int, 0);
                            }
                            return None;
                        }
                        found = Some((i, 0));
                    }
                },
                Some(seats) => {
                    let mut j: usize = 0;
                    while j < seats.len()
                        invariant
                            models == self.resolved_models@,
                            key == state_key@,
                            i < models.len(),
                            nickname@ == models[i as int].0,
                            models[i as int].1.seats == Some(*seats),
                            j <= seats.len(),
                            match found {
                                Some((x, y)) => names_seat(models, key, x as int, y as int)
                                    && forall|a: int, b: int|
                                    (a < i || (a == i && b < j)) && #[trigger] names_seat(
                                        models,
                                        key,
                                        a,
                                        b,
                                    ) ==> a == x && b == y,
                                None => forall|a: int, b: int|
                                    (a < i || (a == i && b < j)) ==> !#[trigger] names_seat(
                                        models,
                                        key,
                                        a,
                                        b,
                                    ),
                            },
                            match found {
                                Some((x, y)) => x < i || (x == i && y < j),
                                None => true,
                            },
                        decreases seats.len() - j,
                    {
                        let composed = seats[j].state_key_for(nickname);
                        if same_text(composed.as_str(), state_key) {
                            assert(names_seat(models, key, i as int, j as int));
                            if let Some((x, y)) = found {
                                proof {
                                    lemma_ambiguous(
                                        models,
                                        key,
                                        x as int,
                                        y as int,
                                        i as int,
                                        j as int,
                                    );
                                }
                                return None;
                            }
                            found = Some((i, j));
                        }
                        j = j + 1;
                    }
                },
            }
            i = i + 1;
        }
        proof {
            match found {
                Some((x, y)) => {
                    assert(names_only(models, key, x as int, y as int));
                    lemma_sole(models, key, x as int, y as int);
                },
                None => {
                    if exists|a: int, b: int| #[trigger] names_only(models, key, a, b) {
                        let (a, b) = choose|a: int, b: int| #[trigger]
                            names_only(models, key, a, b);
                        assert(names_only(models, key, a, b));
                        assert(names_seat(models, key, a, b));
                    }
                },
            }
        }
        found
    }

    /// The one seat that the lane's state key names.
    pub fn probe_seat_for(&self, key: &FieldVerdictKey) -> (seat: Option<ProbeSeat<P>>)
        ensures
            match sole_seat(self.resolved_models@, key.state_key@) {
                Some(place) => seat is Some && describes(
                    seat->0,
                    *self.config,
                    self.resolved_models@,
                    key.state_key@,
                    place,
                ),
                None => seat is None,
            },
    {
        let (i, j) = match self.seat_place(key.state_key.as_str()) {
            Some(place) => place,
            None => {
                return None;
            },
        };
        let model = self.resolved_models.value_at(i);
        let (provider_name, provider) = match &model.seats {
            None => (model.provider_name.clone(), model.provider.clone()),
            Some(seats) => (seats[j].provider_name.clone(), seats[j].provider.clone()),
        };
        let provider_kind = self.config.provider_entry_kind(provider_name.as_str());
        Some(
            ProbeSeat {
                state_key: key.state_key.clone(),
                provider_name,
                provider,
                provider_kind,
                upstream: model.upstream.clone(),
                effective_row: model.effective_row,
                supports_adaptive_thinking: model.supports_adaptive_thinking,
                configured_output_ceiling: model.max_output_tokens,
            },
        )
    }

    /// Whether a rejection by the named entry can be attributed to its
    /// upstream.
    pub open spec fn attributable(&self, provider_name: Seq<char>) -> bool {
        self.config.providers.map().dom().contains(provider_name)
            && self.config.providers.map()[provider_name].attributable
    }

    /// Whether a rejection by the named entry can be attributed to its
    /// upstream.
    pub fn probe_entry_is_attributable(&self, provider_name: &str) -> (yes: bool)
        ensures
            yes == self.attributable(provider_name@),
    {
        match self.config.providers.get(provider_name) {
            Some(entry) => entry.attributable,
            None => false,
        }
    }

    /// The daily cap of the provider that serves the lane's seat; zero where
    /// none is configured or the lane has no seat.
    pub open spec fn daily_cap(&self, state_key: Seq<char>) -> u32 {
        match sole_seat(self.resolved_models@, state_key) {
            Some(place) => {
                let provider = seat_provider(self.resolved_models@, place);
                if self.config.paid_probe_daily_caps.map().dom().contains(provider) {
                    self.config.paid_probe_daily_caps.map()[provider]
                } else {
                    0
                }
            },
            None => 0,
        }
    }

    /// The daily cap of the provider that serves the lane's seat.
    pub fn paid_probe_daily_cap(&self, key: &FieldVerdictKey) -> (cap: u32)
        ensures
            cap == self.daily_cap(key.state_key@),
            match sole_seat(self.resolved_models@, key.state_key@) {
                Some(place) => {
                    let caps = self.config.paid_probe_daily_caps.map();
                    let model = self.resolved_models@[place.0].1;
                    let provider = match model.seats {
                        None => model.provider_name@,
                        Some(seats) => seats@[place.1].provider_name@,
                    };
                    &&& caps.dom().contains(provider) ==> cap == caps[provider]
                    &&& !caps.dom().contains(provider) ==> cap == 0
                },
                None => cap == 0,
            },
    {
        match self.probe_seat_for(key) {
            Some(seat) => match self.config.paid_probe_daily_caps.get(
                seat.provider_name.as_str(),
            ) {
                Some(cap) => *cap,
                None => 0,
            },
            None => 0,
        }
    }
}

} // verus!
