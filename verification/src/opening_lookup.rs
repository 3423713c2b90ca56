//! What a request will be sent to first, looked up before any dispatch.

use std::sync::Arc;

use vstd::prelude::*;

use crate::config::Config;
use crate::resolved::ResolvedModel;
use crate::resolved::SeatTarget;
use crate::router::Router;

verus! {

/// The lane that a route would try first, as known before dispatch.
///
/// A prediction and no record of what served: a later target can take over.
pub struct OpeningLane {
    /// Kind token of the head target's provider.
    pub provider_kind: &'static str,
    /// Nickname of the head target.
    pub nickname: String,
    /// Model id that the head target would send on the wire.
    pub upstream_model: String,
    /// The publication of the router that answered.
    pub generation: u64,
}

/// Why an alias could not be resolved.
#[derive(Clone, Copy, PartialEq, Eq, Structural, Debug)]
pub enum AliasError {
    /// Aliases are nested too deep.
    RecursionTooDeep,
}

/// What resolving an alias came to: the chain of models that it stands for, or
/// nothing where there is no such alias.
pub type AliasResolution<P> = Result<Option<Vec<Arc<ResolvedModel<P>>>>, AliasError>;

/// The first of a chain.
pub open spec fn first_of<P>(chain: Seq<Arc<ResolvedModel<P>>>) -> Option<Arc<ResolvedModel<P>>> {
    if chain.len() == 0 {
        None
    } else {
        Some(chain[0])
    }
}

/// The model at the head of a route: of the alias's chain; else the model of
/// that nickname; else of the default alias's chain. An alias that cannot be
/// resolved has no head.
pub open spec fn route_head<P>(
    models: Map<Seq<char>, Arc<ResolvedModel<P>>>,
    model: Seq<char>,
    alias: AliasResolution<P>,
    default_alias: AliasResolution<P>,
) -> Option<Arc<ResolvedModel<P>>> {
    match alias {
        Ok(Some(chain)) => first_of(chain@),
        Ok(None) => if models.dom().contains(model) {
            Some(models[model])
        } else {
            match default_alias {
                Ok(Some(chain)) => first_of(chain@),
                _ => None,
            }
        },
        Err(_) => None,
    }
}

/// Whether no seat authenticates with the client's own bearer.
pub open spec fn no_seat_forwards<P>(config: Config, seats: Seq<SeatTarget<P>>) -> bool {
    forall|i: int|
        0 <= i < seats.len() ==> !config.forwards((#[trigger] seats[i]).provider_name@)
}

/// Whether every seat authenticates with the client's own bearer.
pub open spec fn every_seat_forwards<P>(config: Config, seats: Seq<SeatTarget<P>>) -> bool {
    forall|i: int| 0 <= i < seats.len() ==> config.forwards((#[trigger] seats[i]).provider_name@)
}

/// Whether a head authenticates with the client's own bearer: as its provider
/// does, or as all its seats do. Seats that disagree give no answer.
pub open spec fn head_forwards<P>(config: Config, head: ResolvedModel<P>) -> Option<bool> {
    match head.seats {
        None => Some(config.forwards(head.provider_name@)),
        Some(seats) => if no_seat_forwards(config, seats@) {
            Some(false)
        } else if every_seat_forwards(config, seats@) {
            Some(true)
        } else {
            None
        },
    }
}

impl<P, L> Router<P, L> {
    /// The publication that this router was last stamped with.
    pub fn publication_generation(&self) -> (generation: u64)
        ensures
            generation == self.probe_incarnation,
    {
        self.probe_incarnation
    }

    /// The model at the head of the route of `model`. `alias` is what
    /// resolving `model` as an alias came to, and `default_alias` what
    /// resolving the catch-all alias did.
    pub fn head_resolved_model(
        &self,
        model: &str,
        alias: &AliasResolution<P>,
        default_alias: &AliasResolution<P>,
    ) -> (head: Option<Arc<ResolvedModel<P>>>)
        ensures
            head == route_head(
                self.resolved_models.map(),
                model@,
                *alias,
                *default_alias,
            ),
            match *alias {
                Ok(Some(chain)) => chain@.len() > 0 ==> head == Some(chain@[0]),
                Ok(None) => match *default_alias {
                    Ok(Some(chain)) => !self.resolved_models.map().dom().contains(model@)
                        && chain@.len() > 0 ==> head == Some(chain@[0]),
                    _ => true,
                },
                Err(_) => head is None,
            },
    {
        let chain: &Vec<Arc<ResolvedModel<P>>> = match alias {
            Ok(Some(chain)) => chain,
            Ok(None) => {
                match self.resolve_nickname(model) {
                    Some(direct) => {
                        return Some(direct);
                    },
                    None => match default_alias {
                        Ok(Some(chain)) => chain,
                        _ => {
                            return None;
                        },
                    },
                }
            },
            Err(_) => {
                return None;
            },
        };
        if chain.len() == 0 {
            None
        } else {
            Some(chain[0].clone())
        }
    }

    /// Whether a head authenticates with the client's own bearer; nothing
    /// where its seats disagree.
    pub fn head_uses_forwarded_credential(&self, head: &ResolvedModel<P>) -> (forwards: Option<
        bool,
    >)
        ensures
            forwards == head_forwards(*self.config, *head),
    {
        let seats: &Vec<SeatTarget<P>> = match &head.seats {
            None => {
                return Some(self.config.is_forwarded(head.provider_name.as_str()));
            },
            Some(seats) => seats,
        };
        let mut some_forward: bool = false;
        let mut some_own: bool = false;
        let mut i: usize = 0;
        while i < seats.len()
            invariant
                i <= seats.len(),
                some_forward <==> (exists|j: int|
                    0 <= j < i && self.config.forwards((#[trigger] seats@[j]).provider_name@)),
                some_own <==> (exists|j: int|
                    0 <= j < i && !self.config.forwards((#[trigger] seats@[j]).provider_name@)),
            decreases seats.len() - i,
        {
            let ghost seat = seats@[i as int];
            if self.config.is_forwarded(seats[i].provider_name.as_str()) {
                some_forward = true;
            } else {
                some_own = true;
            }
            assert(seat == seats@[i as int]);
            i = i + 1;
        }
        if !some_forward {
            Some(false)
        } else if !some_own {
            Some(true)
        } else {
            None
        }
    }

    /// The lane that the route of `model` would try first. `alias` is what
    /// resolving `model` as an alias came to, and `default_alias` what
    /// resolving the catch-all alias did.
    ///
    /// There is none where nothing resolves, where the head has no provider
    /// kind, and where its seats disagree on whose credential they use.
    pub fn opening_lane(
        &self,
        model: &str,
        alias: &AliasResolution<P>,
        default_alias: &AliasResolution<P>,
    ) -> (lane: Option<OpeningLane>)
        ensures
            match route_head(self.resolved_models.map(), model@, *alias, *default_alias) {
                None => lane is None,
                Some(head) => {
                    let kind = self.config.kind_of(head.provider_name@);
                    match head_forwards(*self.config, *head) {
                        Some(forwards) => if kind.len() == 0 {
                            lane is None
                        } else {
                            &&& lane is Some
                            &&& lane->0.provider_kind@ == kind
                            &&& lane->0.nickname@ == head.nickname@
                            &&& lane->0.upstream_model@ == (if forwards {
                                model@
                            } else {
                                head.upstream@
                            })
                            &&& lane->0.generation == self.probe_incarnation
                        },
                        None => lane is None,
                    }
                },
            },
    {
        let head = match self.head_resolved_model(model, alias, default_alias) {
            Some(head) => head,
            None => {
                return None;
            },
        };
        let provider_kind = self.config.provider_kind_for_target(head.provider_name.as_str());
        if provider_kind.is_empty() {
            return None;
        }
        let upstream_model: String = match self.head_uses_forwarded_credential(&head) {
            Some(true) => model.to_owned(),
            Some(false) => head.upstream.clone(),
            None => {
                return None;
            },
        };
        Some(
            OpeningLane {
                provider_kind,
                nickname: head.nickname.clone(),
                upstream_model,
                generation: self.publication_generation(),
            },
        )
    }
}

} // verus!
