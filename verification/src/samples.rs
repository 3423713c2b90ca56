//! What a served request leaves as evidence, and the calibration lanes.

use std::sync::Arc;

use vstd::prelude::*;

use crate::prefix_rewrite::fingerprint_text;
use crate::prefix_rewrite::text_fingerprint;
use crate::resolved::ResolvedModel;
use crate::router::Router;
use crate::router::StoreOrigins;
use crate::text::lemma_pushed;

verus! {

/// One observation of cache reuse, under its session, provider kind and model.
pub struct KSample {
    /// The session that the observation is of.
    pub session_key: String,
    /// The kind of the provider that served.
    pub provider_kind: String,
    /// The nickname of the model that served.
    pub model: String,
    /// Whether anything was read from the cache.
    pub observed_reuse: bool,
    /// When it was made, in milliseconds since the Unix epoch.
    pub observed_at: u64,
}

/// The lane that token estimates are calibrated in.
pub struct LaneKey {
    /// The kind of the provider.
    pub provider_kind: String,
    /// The nickname of the model.
    pub nickname: String,
}

/// What lanes are: provider kinds and nicknames.
pub open spec fn lane_views(lanes: Seq<LaneKey>) -> Seq<(Seq<char>, Seq<char>)> {
    lanes.map_values(|lane: LaneKey| (lane.provider_kind@, lane.nickname@))
}

/// The lanes of models that a router knows, in order.
pub open spec fn known_lanes<P>(
    lanes: Seq<(Seq<char>, Seq<char>)>,
    models: Map<Seq<char>, Arc<ResolvedModel<P>>>,
) -> Seq<(Seq<char>, Seq<char>)>
    decreases lanes.len(),
{
    if lanes.len() == 0 {
        Seq::empty()
    } else {
        let before = known_lanes(lanes.drop_last(), models);
        if models.dom().contains(lanes.last().1) {
            before.push(lanes.last())
        } else {
            before
        }
    }
}

/// One observation of a token estimate.
pub struct CalibrationSample {
    /// The lane that the observation is of.
    pub lane: LaneKey,
    /// What the router estimated.
    pub estimated_tokens: u64,
    /// What the upstream counted.
    pub prompt_tokens: u64,
    /// The cohort of the caller that the observation came from.
    pub cohort: Option<u64>,
    /// When it was made, in milliseconds since the Unix epoch.
    pub observed_at: u64,
}

/// The cohort of a caller: an opaque tag of its session key, so that evidence
/// can be told apart by caller and holds nothing that identifies one. Requests
/// without a session key share one cohort.
pub open spec fn caller_cohort(session_key: Option<Seq<char>>) -> Option<u64> {
    match session_key {
        Some(key) => Some(text_fingerprint(key)),
        None => None,
    }
}

/// The cohort of a caller.
pub fn cohort_of(session_key: Option<&str>) -> (cohort: Option<u64>)
    ensures
        cohort == caller_cohort(
            match session_key {
                Some(key) => Some(key@),
                None => None,
            },
        ),
{
    match session_key {
        Some(key) => Some(fingerprint_text(key)),
        None => None,
    }
}

/// What an observation is.
pub struct SampleView {
    /// The kind of the provider.
    pub provider_kind: Seq<char>,
    /// The nickname of the model.
    pub nickname: Seq<char>,
    /// What the router estimated.
    pub estimated_tokens: u64,
    /// What the upstream counted.
    pub prompt_tokens: u64,
    /// The cohort of the caller.
    pub cohort: Option<u64>,
    /// When it was made.
    pub observed_at: u64,
}

impl View for CalibrationSample {
    type V = SampleView;

    open spec fn view(&self) -> SampleView {
        SampleView {
            provider_kind: self.lane.provider_kind@,
            nickname: self.lane.nickname@,
            estimated_tokens: self.estimated_tokens,
            prompt_tokens: self.prompt_tokens,
            cohort: self.cohort,
            observed_at: self.observed_at,
        }
    }
}

impl CalibrationSample {
    /// An observation of the same.
    pub fn copy(&self) -> (out: CalibrationSample)
        ensures
            out@ == self@,
    {
        CalibrationSample {
            lane: LaneKey {
                provider_kind: self.lane.provider_kind.clone(),
                nickname: self.lane.nickname.clone(),
            },
            estimated_tokens: self.estimated_tokens,
            prompt_tokens: self.prompt_tokens,
            cohort: self.cohort,
            observed_at: self.observed_at,
        }
    }
}

/// What observations are.
pub open spec fn sample_views(samples: Seq<CalibrationSample>) -> Seq<SampleView> {
    samples.map_values(|s: CalibrationSample| s@)
}

/// The observations of models that a router knows, in order.
pub open spec fn known_samples<P>(
    samples: Seq<SampleView>,
    models: Map<Seq<char>, Arc<ResolvedModel<P>>>,
) -> Seq<SampleView>
    decreases samples.len(),
{
    if samples.len() == 0 {
        Seq::empty()
    } else {
        let before = known_samples(samples.drop_last(), models);
        if models.dom().contains(samples.last().nickname) {
            before.push(samples.last())
        } else {
            before
        }
    }
}

/// A lane survives a reload exactly where its model does: a history of renamed
/// models adds no lane that can never serve.
pub proof fn law_lanes_of_known_models<P>(
    lanes: Seq<(Seq<char>, Seq<char>)>,
    models: Map<Seq<char>, Arc<ResolvedModel<P>>>,
    lane: (Seq<char>, Seq<char>),
)
    ensures
        known_lanes(lanes, models).contains(lane) <==> lanes.contains(lane)
            && models.dom().contains(lane.1),
    decreases lanes.len(),
{
    if lanes.len() > 0 {
        let shorter = lanes.drop_last();
        let before = known_lanes(shorter, models);
        law_lanes_of_known_models(shorter, models, lane);
        assert(lanes =~= shorter.push(lanes.last()));
        lemma_pushed(shorter, lanes.last(), lane);
        lemma_pushed(before, lanes.last(), lane);
    }
}

impl<P, L> Router<P, L> {
    /// The observation of cache reuse that a served request leaves. A request
    /// without a session key leaves none.
    pub fn record_k_sample(
        &self,
        session_key: Option<&str>,
        provider_kind: &str,
        model: &str,
        cache_read: u64,
        observed_at: u64,
    ) -> (sample: Option<KSample>)
        ensures
            match session_key {
                None => sample is None,
                Some(key) => {
                    &&& sample is Some
                    &&& sample->0.session_key@ == key@
                    &&& sample->0.provider_kind@ == provider_kind@
                    &&& sample->0.model@ == model@
                    &&& sample->0.observed_reuse == (cache_read > 0)
                    &&& sample->0.observed_at == observed_at
                },
            },
    {
        match session_key {
            None => None,
            Some(key) => Some(
                KSample {
                    session_key: key.to_owned(),
                    provider_kind: provider_kind.to_owned(),
                    model: model.to_owned(),
                    observed_reuse: cache_read > 0,
                    observed_at,
                },
            ),
        }
    }

    /// The observation of a token estimate that a served request leaves. A
    /// target without a provider kind or a nickname forms no lane and leaves
    /// none. `session_key` names the caller and decides the cohort only.
    pub fn record_calibration_sample(
        &self,
        provider_kind: Option<&str>,
        nickname: Option<&str>,
        session_key: Option<&str>,
        estimated_tokens: u64,
        prompt_tokens: u64,
        observed_at: u64,
    ) -> (sample: Option<CalibrationSample>)
        ensures
            match (provider_kind, nickname) {
                (Some(kind), Some(name)) => {
                    &&& sample is Some
                    &&& sample->0@ == (SampleView {
                        provider_kind: kind@,
                        nickname: name@,
                        estimated_tokens,
                        prompt_tokens,
                        cohort: caller_cohort(
                            match session_key {
                                Some(key) => Some(key@),
                                None => None,
                            },
                        ),
                        observed_at,
                    })
                },
                _ => sample is None,
            },
    {
        match (provider_kind, nickname) {
            (Some(kind), Some(name)) => Some(
                CalibrationSample {
                    lane: LaneKey { provider_kind: kind.to_owned(), nickname: name.to_owned() },
                    estimated_tokens,
                    prompt_tokens,
                    cohort: cohort_of(session_key),
                    observed_at,
                },
            ),
            _ => None,
        }
    }

    /// The lane whose correction applies to an estimate, or nothing where
    /// calibration is switched off.
    pub fn calibration_lane_for(&self, provider_kind: &str, nickname: &str) -> (lane: Option<
        LaneKey,
    >)
        ensures
            (lane is Some) == self.config.calibration_enabled,
            lane is Some ==> lane->0.provider_kind@ == provider_kind@ && lane->0.nickname@
                == nickname@,
    {
        if !self.config.calibration_enabled {
            return None;
        }
        Some(LaneKey { provider_kind: provider_kind.to_owned(), nickname: nickname.to_owned() })
    }

    /// The provider kind and nickname of each lane that holds evidence.
    pub fn calibration_lanes(&self, lanes: &Vec<LaneKey>) -> (names: Vec<(String, String)>)
        ensures
            names@.map_values(|n: (String, String)| (n.0@, n.1@)) == lane_views(lanes@),
    {
        let mut names: Vec<(String, String)> = Vec::new();
        let mut i: usize = 0;
        while i < lanes.len()
            invariant
                i <= lanes.len(),
                names@.len() == i,
                forall|j: int|
                    0 <= j < i ==> (#[trigger] names@[j]).0@ == lanes@[j].provider_kind@
                        && names@[j].1@ == lanes@[j].nickname@,
            decreases lanes.len() - i,
        {
            names.push((lanes[i].provider_kind.clone(), lanes[i].nickname.clone()));
            i = i + 1;
        }
        assert(names@.map_values(|n: (String, String)| (n.0@, n.1@)) =~= lane_views(lanes@));
        names
    }

    /// The persisted observations that a router starts with: of the rows that
    /// the ledger gave, in order, those of models that the router knows. How
    /// many rows are read, and how old they may be, is settled with the ledger
    /// before this, and they are tallied as they are written to the store.
    pub fn rebuild_calibration_from_ledger(&self, rows: &Vec<CalibrationSample>) -> (kept: Vec<
        CalibrationSample,
    >)
        ensures
            sample_views(kept@) == known_samples(sample_views(rows@), self.resolved_models.map()),
    {
        let ghost all = sample_views(rows@);
        let ghost models = self.resolved_models.map();
        let mut kept: Vec<CalibrationSample> = Vec::new();
        let mut i: usize = 0;
        assert(all.take(0) =~= Seq::<SampleView>::empty());
        assert(sample_views(kept@) =~= Seq::<SampleView>::empty());
        while i < rows.len()
            invariant
                i <= rows.len(),
                all == sample_views(rows@),
                models == self.resolved_models.map(),
                sample_views(kept@) == known_samples(all.take(i as int), models),
            decreases rows.len() - i,
        {
            assert(all.take(i as int + 1).drop_last() =~= all.take(i as int));
            let row = &rows[i];
            if self.knows_nickname(row.lane.nickname.as_str()) {
                let ghost before = sample_views(kept@);
                kept.push(row.copy());
                assert(sample_views(kept@) =~= before.push(all[i as int]));
            }
            i = i + 1;
        }
        assert(all.take(i as int) =~= all);
        kept
    }

    /// Shares the calibration evidence of the previous router, and keeps of
    /// its lanes those of models that this router knows.
    pub fn carry_over_calibration_from(&mut self, previous: &Self, lanes: &mut Vec<LaneKey>)
        ensures
            *final(self) == (Router {
                stores: StoreOrigins {
                    calibration: previous.stores.calibration,
                    ..old(self).stores
                },
                ..*old(self)
            }),
            lane_views(final(lanes)@) == known_lanes(
                lane_views(old(lanes)@),
                old(self).resolved_models.map(),
            ),
    {
        self.stores.calibration = previous.stores.calibration;
        let ghost all = lane_views(lanes@);
        let ghost models = self.resolved_models.map();
        let mut kept: Vec<LaneKey> = Vec::new();
        let mut i: usize = 0;
        assert(all.take(0) =~= Seq::<(Seq<char>, Seq<char>)>::empty());
        assert(lane_views(kept@) =~= Seq::<(Seq<char>, Seq<char>)>::empty());
        while i < lanes.len()
            invariant
                i <= lanes.len(),
                all == lane_views(lanes@),
                models == self.resolved_models.map(),
                lane_views(kept@) == known_lanes(all.take(i as int), models),
            decreases lanes.len() - i,
        {
            assert(all.take(i as int + 1).drop_last() =~= all.take(i as int));
            if self.knows_nickname(lanes[i].nickname.as_str()) {
                let ghost before = lane_views(kept@);
                let lane = LaneKey {
                    provider_kind: lanes[i].provider_kind.clone(),
                    nickname: lanes[i].nickname.clone(),
                };
                kept.push(lane);
                assert(lane_views(kept@) =~= before.push(all[i as int]));
            }
            i = i + 1;
        }
        assert(all.take(i as int) =~= all);
        *lanes = kept;
    }
}

} // verus!
