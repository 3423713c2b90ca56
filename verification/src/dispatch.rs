//! Dispatch targets, and the metadata that a dispatch leaves behind.

use std::sync::Arc;

use vstd::prelude::*;

use crate::json::Json;
use crate::names::NameTable;
use crate::resolved::ResolvedModel;

verus! {

/// Per-request routing options.
#[non_exhaustive]
#[derive(Clone, Copy, Debug)]
pub struct RouterOptions {
    /// Stop at the first target instead of walking the fallback chain.
    pub disable_fallbacks: bool,
}

impl Default for RouterOptions {
    fn default() -> (out: Self)
        ensures
            !out.disable_fallbacks,
    {
        RouterOptions { disable_fallbacks: false }
    }
}

impl RouterOptions {
    /// The default options: fallbacks are walked.
    pub fn new() -> (out: Self)
        ensures
            !out.disable_fallbacks,
    {
        RouterOptions::default()
    }
}

/// One target of an expanded chain, with what its dispatch reads.
pub struct DispatchTarget<P> {
    /// The `[providers]` key that serves the target.
    pub provider_name: String,
    /// The kind token of that entry, where it could be looked up.
    pub provider_kind: Option<&'static str>,
    /// Whether the target authenticates with the client's own bearer.
    pub use_forwarded_credential: bool,
    /// The key of the target's runtime gate.
    pub state_key: String,
    /// The account identity of the target's credential.
    pub seat: Option<String>,
    /// The model id on the wire.
    pub upstream: String,
    /// The provider to call.
    pub provider: Option<Arc<P>>,
    /// Whether the target takes the adaptive thinking shape.
    pub supports_adaptive_thinking: bool,
    /// The effort levels that the target takes.
    pub effort_levels: Arc<Vec<String>>,
    /// The served model's nickname.
    pub nickname: Option<String>,
    /// The resolved model.
    pub model: Arc<ResolvedModel<P>>,
    /// The reasoning dialect token.
    pub reasoning_dialect: Option<String>,
    /// The history-reasoning policy token.
    pub history_reasoning: Option<String>,
    /// The thinking budget ceiling.
    pub max_thinking_budget: u32,
    /// The output ceiling; zero means none.
    pub max_output_tokens: u32,
    /// Why this seat was selected, for a pooled target.
    pub selection_decision: Option<&'static str>,
    /// What is known of the target's capabilities before any dispatch.
    pub capabilities: NameTable<bool>,
}

impl<P> DispatchTarget<P> {
    /// What is known of a feature before any dispatch.
    pub fn capability_prior(&self, feature: &str) -> (prior: Option<bool>)
        ensures
            prior == (if self.capabilities.map().dom().contains(feature@) {
                Some(self.capabilities.map()[feature@])
            } else {
                None
            }),
    {
        match self.capabilities.get(feature) {
            Some(known) => Some(*known),
            None => None,
        }
    }
}

/// How a replayed artifact was degraded for a target.
#[non_exhaustive]
pub struct ReplayDegradation {
    /// What was done.
    pub action: &'static str,
    /// The lane that the artifact was meant for.
    pub target_lane: String,
    /// The key of the target's runtime gate.
    pub state_key: String,
    /// The schemes that the artifact came in.
    pub source_schemes: Vec<String>,
    /// Why it was done.
    pub reason: &'static str,
    /// How many artifacts were involved.
    pub artifact_count: usize,
    /// Whether a repair was attempted.
    pub repair_attempted: bool,
    /// Whether the repair succeeded.
    pub repair_succeeded: bool,
    /// Whether the outcome was learned.
    pub learned: bool,
}

/// What a dispatch leaves behind for accounting. A ratio is held as the bit
/// pattern of its 64-bit float.
#[non_exhaustive]
pub struct DispatchMeta {
    /// Attempts made.
    pub attempt_count: u32,
    /// Fallback hops taken.
    pub fallback_count: u32,
    /// The `[providers]` key of the served or terminal target.
    pub served_provider: Option<String>,
    /// The kind token of that entry.
    pub served_provider_kind: Option<String>,
    /// The nickname of the served or terminal target.
    pub served_model: Option<String>,
    /// The model id that went out on the wire.
    pub served_upstream: Option<String>,
    /// Whether the target authenticated with the client's own bearer.
    pub served_forwarded_credential: bool,
    /// The account identity of the served or terminal target.
    pub served_seat: Option<String>,
    /// The alias that the request routed under.
    pub resolved_alias: String,
    /// The cache strategy applied.
    pub cache_strategy: Option<&'static str>,
    /// The decision on the cache front.
    pub cache_front_decision: Option<&'static str>,
    /// The decision on the cache terminal.
    pub cache_terminal_decision: Option<&'static str>,
    /// The reduction strategy applied.
    pub reduction_strategy: Option<&'static str>,
    /// Strings compressed by the reduction.
    pub reduction_strings_compressed: Option<u64>,
    /// Strings that the reduction skipped.
    pub reduction_strings_skipped: Option<u64>,
    /// Strings that the reduction rejected.
    pub reduction_strings_rejected: Option<u64>,
    /// Bytes that the reduction saved.
    pub reduction_bytes_saved: Option<u64>,
    /// Why the served seat was selected.
    pub selection_decision: Option<&'static str>,
    /// Tokens that an advisory trim would have cut.
    pub would_trim_tokens: Option<u64>,
    /// Reuse count at which the trim would break even.
    pub would_trim_break_even_k: Option<u64>,
    /// Lower bound of the reuse estimate.
    pub would_trim_k_floor: Option<u64>,
    /// The shadow monitor's advisory code.
    pub would_trim_shadow_misfire: Option<i64>,
    /// The prefix-rewrite detector's advisory code.
    pub prefix_epoch_event: Option<i64>,
    /// Tokens that deduplication would have cut.
    pub would_trim_dedup_tokens: Option<u64>,
    /// Tokens that supersession would have cut.
    pub would_trim_supersession_tokens: Option<u64>,
    /// Path units seen.
    pub would_trim_path_units: Option<u64>,
    /// Path units that could be extracted.
    pub would_trim_path_extractable: Option<u64>,
    /// Version of the recorder that wrote the trim fields.
    pub would_trim_recorder_version: Option<i64>,
    /// The recorder's raw marks.
    pub would_trim_raw_marks: Option<Json>,
    /// Share of the context window that the request takes.
    pub would_trim_context_fraction: Option<u64>,
    /// The token estimate to calibrate against.
    pub calib_estimated_tokens: Option<u64>,
    /// Capabilities learned to be missing.
    pub learned_capabilities: Vec<String>,
    /// Capabilities observed.
    pub capability_observations: Vec<String>,
    /// Capabilities cleared.
    pub cleared_capabilities: Vec<String>,
    /// How a replayed artifact was degraded.
    pub replay_degradation: Option<ReplayDegradation>,
}

impl DispatchMeta {
    /// Whether nothing has been recorded beyond the alias.
    pub open spec fn is_blank(self) -> bool {
        &&& self.attempt_count == 0
        &&& self.fallback_count == 0
        &&& self.served_provider is None
        &&& self.served_provider_kind is None
        &&& self.served_model is None
        &&& self.served_upstream is None
        &&& !self.served_forwarded_credential
        &&& self.served_seat is None
        &&& self.cache_strategy is None
        &&& self.cache_front_decision is None
        &&& self.cache_terminal_decision is None
        &&& self.reduction_strategy is None
        &&& self.reduction_strings_compressed is None
        &&& self.reduction_strings_skipped is None
        &&& self.reduction_strings_rejected is None
        &&& self.reduction_bytes_saved is None
        &&& self.selection_decision is None
        &&& self.would_trim_tokens is None
        &&& self.would_trim_break_even_k is None
        &&& self.would_trim_k_floor is None
        &&& self.would_trim_shadow_misfire is None
        &&& self.prefix_epoch_event is None
        &&& self.would_trim_dedup_tokens is None
        &&& self.would_trim_supersession_tokens is None
        &&& self.would_trim_path_units is None
        &&& self.would_trim_path_extractable is None
        &&& self.would_trim_recorder_version is None
        &&& self.would_trim_raw_marks is None
        &&& self.would_trim_context_fraction is None
        &&& self.calib_estimated_tokens is None
        &&& self.learned_capabilities@.len() == 0
        &&& self.capability_observations@.len() == 0
        &&& self.cleared_capabilities@.len() == 0
        &&& self.replay_degradation is None
    }

    /// Blank metadata for a request that routes under `alias`.
    pub fn for_alias(alias: &str) -> (out: Self)
        ensures
            out.is_blank(),
            out.resolved_alias@ == alias@,
    {
        DispatchMeta {
            attempt_count: 0,
            fallback_count: 0,
            served_provider: None,
            served_provider_kind: None,
            served_model: None,
            served_upstream: None,
            served_forwarded_credential: false,
            served_seat: None,
            resolved_alias: alias.to_owned(),
            cache_strategy: None,
            cache_front_decision: None,
            cache_terminal_decision: None,
            reduction_strategy: None,
            reduction_strings_compressed: None,
            reduction_strings_skipped: None,
            reduction_strings_rejected: None,
            reduction_bytes_saved: None,
            selection_decision: None,
            would_trim_tokens: None,
            would_trim_break_even_k: None,
            would_trim_k_floor: None,
            would_trim_shadow_misfire: None,
            prefix_epoch_event: None,
            would_trim_dedup_tokens: None,
            would_trim_supersession_tokens: None,
            would_trim_path_units: None,
            would_trim_path_extractable: None,
            would_trim_recorder_version: None,
            would_trim_raw_marks: None,
            would_trim_context_fraction: None,
            calib_estimated_tokens: None,
            learned_capabilities: Vec::new(),
            capability_observations: Vec::new(),
            cleared_capabilities: Vec::new(),
            replay_degradation: None,
        }
    }

    /// Records `target` as the one that served, or that the dispatch ended at.
    /// On the forwarded-credential path the wire id is the requested model and
    /// no seat is recorded: the router does not own the client's seat.
    pub fn mark_target<P>(&mut self, target: &DispatchTarget<P>, requested_model: &str)
        ensures
            final(self).served_provider == Some(target.provider_name),
            option_text(final(self).served_provider_kind) == (match target.provider_kind {
                Some(kind) => Some(kind@),
                None => None,
            }),
            final(self).served_model == target.nickname,
            option_text(final(self).served_upstream) == Some(
                if target.use_forwarded_credential {
                    requested_model@
                } else {
                    target.upstream@
                },
            ),
            final(self).served_forwarded_credential == target.use_forwarded_credential,
            final(self).served_seat == (if target.use_forwarded_credential {
                None
            } else {
                target.seat
            }),
            final(self).selection_decision == target.selection_decision,
            *final(self) == (DispatchMeta {
                served_provider: final(self).served_provider,
                served_provider_kind: final(self).served_provider_kind,
                served_model: final(self).served_model,
                served_upstream: final(self).served_upstream,
                served_forwarded_credential: final(self).served_forwarded_credential,
                served_seat: final(self).served_seat,
                selection_decision: final(self).selection_decision,
                ..*old(self)
            }),
    {
        self.served_provider = Some(target.provider_name.clone());
        self.served_provider_kind = match target.provider_kind {
            Some(kind) => Some(kind.to_owned()),
            None => None,
        };
        self.served_model = target.nickname.clone();
        self.served_upstream = Some(
            if target.use_forwarded_credential {
                requested_model.to_owned()
            } else {
                target.upstream.clone()
            },
        );
        self.served_forwarded_credential = target.use_forwarded_credential;
        self.served_seat = if target.use_forwarded_credential {
            None
        } else {
            target.seat.clone()
        };
        self.selection_decision = target.selection_decision;
    }
}

/// The text that an optional string holds.
pub open spec fn option_text(text: Option<String>) -> Option<Seq<char>> {
    match text {
        Some(t) => Some(t@),
        None => None,
    }
}

/// A completion's outcome with the metadata of its dispatch.
pub struct Dispatched<R> {
    /// The metadata.
    pub meta: DispatchMeta,
    /// The outcome.
    pub result: R,
}

/// A stream's outcome with the metadata of its dispatch.
pub struct DispatchedStream<S> {
    /// The metadata.
    pub meta: DispatchMeta,
    /// The stream, or why there is none.
    pub result: S,
}

} // verus!
