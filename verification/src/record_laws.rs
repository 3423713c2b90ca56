//! Laws of the counters, of the metadata of a dispatch and of a request.

use vstd::prelude::*;

use crate::config::AliasValue;
use crate::config::AliasView;
use crate::dispatch::option_text;
use crate::dispatch::DispatchMeta;
use crate::metrics::bumped;
use crate::metrics::bumped_by;
use crate::metrics::zeroed;
use crate::metrics::FailurePhase;
use crate::metrics::PoolOmissionReason;
use crate::metrics::QuotaDecision;
use crate::metrics::RouterMetrics;
use crate::request::ChatRequest;
use crate::request::RoutectlInternal;
use crate::router::glob_views;
use crate::router::AliasGlob;

verus! {

// ---------------------------------------------------------------------------
// Counters
// ---------------------------------------------------------------------------

/// A counter moves by one and wraps at its width.
pub proof fn law_count_of_one(count: u64)
    ensures
        count < u64::MAX ==> bumped(count) == count + 1,
        count == u64::MAX ==> bumped(count) == 0,
{
}

/// A counter that counts `n` events moves by `n`, modulo its width.
pub proof fn law_count_of_many(count: u64, n: nat)
    ensures
        bumped_by(count, n) == (count + n) % 0x1_0000_0000_0000_0000,
    decreases n,
{
    if n > 0 {
        let before = (n - 1) as nat;
        law_count_of_many(count, before);
        law_count_of_one(bumped_by(count, before));
    }
}

/// What `count` is after an event that is counted where `here` holds.
pub open spec fn counted(count: u64, here: bool) -> u64 {
    if !here {
        count
    } else if count == 0xffff_ffff_ffff_ffff {
        0
    } else {
        (count + 1) as u64
    }
}

/// An omitted member is counted under its own reason and nowhere else.
pub proof fn law_omission(metrics: RouterMetrics, reason: PoolOmissionReason)
    ensures
        metrics.with_omission(reason) == (RouterMetrics {
            pool_member_omitted_credential_missing_total: counted(
                metrics.pool_member_omitted_credential_missing_total,
                reason is CredentialMissing,
            ),
            pool_member_omitted_credential_unreadable_total: counted(
                metrics.pool_member_omitted_credential_unreadable_total,
                reason is CredentialUnreadable,
            ),
            pool_member_omitted_credential_invalid_total: counted(
                metrics.pool_member_omitted_credential_invalid_total,
                reason is CredentialInvalid,
            ),
            pool_member_omitted_provider_init_failed_total: counted(
                metrics.pool_member_omitted_provider_init_failed_total,
                reason is ProviderInitFailed,
            ),
            ..metrics
        }),
{
}

/// A learned negative is counted in all and under its phase, of which the third
/// has no counter of its own.
pub proof fn law_negative(metrics: RouterMetrics, phase: FailurePhase)
    ensures
        metrics.with_negative(phase) == (RouterMetrics {
            learned_negatives_total: counted(metrics.learned_negatives_total, true),
            learned_negatives_f1_total: counted(metrics.learned_negatives_f1_total, phase is F1),
            learned_negatives_f2_total: counted(metrics.learned_negatives_f2_total, phase is F2),
            ..metrics
        }),
{
}

/// A placement is counted under its own decision, and a dormant one nowhere.
pub proof fn law_placement(metrics: RouterMetrics, decision: QuotaDecision)
    ensures
        metrics.with_placement(decision) == (RouterMetrics {
            quota_placement_below_cap_total: counted(
                metrics.quota_placement_below_cap_total,
                decision is BelowCapTier,
            ),
            quota_placement_all_capped_total: counted(
                metrics.quota_placement_all_capped_total,
                decision is AllCappedMostRemaining,
            ),
            quota_placement_mixed_unknown_total: counted(
                metrics.quota_placement_mixed_unknown_total,
                decision is MixedUnknownFallback,
            ),
            quota_placement_all_unknown_total: counted(
                metrics.quota_placement_all_unknown_total,
                decision is AllUnknownFallback,
            ),
            ..metrics
        }),
{
}

/// The totals are the counters that they are named after.
pub proof fn law_totals(metrics: RouterMetrics)
    ensures
        metrics.placements().below_cap == metrics.quota_placement_below_cap_total,
        metrics.placements().all_capped == metrics.quota_placement_all_capped_total,
        metrics.placements().mixed_unknown == metrics.quota_placement_mixed_unknown_total,
        metrics.placements().all_unknown == metrics.quota_placement_all_unknown_total,
        metrics.pools().dispatch == metrics.pool_dispatch_total,
        metrics.pools().degraded_dispatch == metrics.pool_degraded_dispatch_total,
        metrics.pools().unavailable == metrics.pool_unavailable_total,
        metrics.pools().omitted_credential_missing
            == metrics.pool_member_omitted_credential_missing_total,
        metrics.pools().omitted_credential_unreadable
            == metrics.pool_member_omitted_credential_unreadable_total,
        metrics.pools().omitted_credential_invalid
            == metrics.pool_member_omitted_credential_invalid_total,
        metrics.pools().omitted_provider_init_failed
            == metrics.pool_member_omitted_provider_init_failed_total,
        metrics.pools().removed_pin_repick == metrics.pool_removed_pin_repick_total,
{
}

/// New counters have counted nothing, whichever is looked at.
pub proof fn law_zeroed(i: int)
    requires
        0 <= i < 33,
    ensures
        zeroed().snapshot_fields(0)[i].1 == 0,
{
}

/// A snapshot line holds every counter under its own name, in this order.
pub proof fn law_snapshot(metrics: RouterMetrics, refused: u64)
    ensures
        ({
            let fields = metrics.snapshot_fields(refused);
            &&& fields.len() == 33
            &&& fields[0] == ("rc_unknown_failure_classifications_total"@, metrics.unknown_failure_classifications_total)
            &&& fields[1] == ("rc_feature_unsupported_total"@, metrics.feature_unsupported_total)
            &&& fields[2] == ("rc_learned_negatives_total"@, metrics.learned_negatives_total)
            &&& fields[3] == ("rc_learned_negatives_f1_total"@, metrics.learned_negatives_f1_total)
            &&& fields[4] == ("rc_learned_negatives_f2_total"@, metrics.learned_negatives_f2_total)
            &&& fields[5] == ("rc_probe_attempts_total"@, metrics.probe_attempts_total)
            &&& fields[6] == ("rc_probe_failures_total"@, metrics.probe_failures_total)
            &&& fields[7] == ("rc_invalidations_total"@, metrics.invalidations_total)
            &&& fields[8] == ("rc_d17_tail_total"@, metrics.d17_tail_total)
            &&& fields[9] == ("rc_strip_total"@, metrics.strip_total)
            &&& fields[10] == ("rc_strip_rollback_total"@, metrics.strip_rollback_total)
            &&& fields[11] == ("rc_strip_strict_rejected_total"@, metrics.strip_strict_rejected_total)
            &&& fields[12] == ("rc_mask_suppressed_total"@, metrics.mask_suppressed_total)
            &&& fields[13] == ("rc_f2_same_chain_suppressed_total"@, metrics.f2_same_chain_suppressed_total)
            &&& fields[14] == ("rc_feature_naming_unmatched_total"@, metrics.feature_naming_unmatched_total)
            &&& fields[15] == ("rc_verified_working_total"@, metrics.verified_working_total)
            &&& fields[16] == ("rc_f3_suspect_total"@, metrics.f3_suspect_total)
            &&& fields[17] == ("rc_window_gate_skips_total"@, metrics.window_gate_skips_total)
            &&& fields[18] == ("rc_context_window_overflow_total"@, metrics.context_window_overflow_total)
            &&& fields[19] == ("rc_quota_placement_below_cap_total"@, metrics.quota_placement_below_cap_total)
            &&& fields[20] == ("rc_quota_placement_all_capped_total"@, metrics.quota_placement_all_capped_total)
            &&& fields[21] == ("rc_quota_placement_mixed_unknown_total"@, metrics.quota_placement_mixed_unknown_total)
            &&& fields[22] == ("rc_quota_placement_all_unknown_total"@, metrics.quota_placement_all_unknown_total)
            &&& fields[23] == ("rc_quota_refused_by_admission_total"@, refused)
            &&& fields[24] == ("rc_pool_dispatch_total"@, metrics.pool_dispatch_total)
            &&& fields[25] == ("rc_pool_degraded_dispatch_total"@, metrics.pool_degraded_dispatch_total)
            &&& fields[26] == ("rc_pool_unavailable_total"@, metrics.pool_unavailable_total)
            &&& fields[27] == ("rc_pool_member_omitted_credential_missing_total"@, metrics.pool_member_omitted_credential_missing_total)
            &&& fields[28] == ("rc_pool_member_omitted_credential_unreadable_total"@, metrics.pool_member_omitted_credential_unreadable_total)
            &&& fields[29] == ("rc_pool_member_omitted_credential_invalid_total"@, metrics.pool_member_omitted_credential_invalid_total)
            &&& fields[30] == ("rc_pool_member_omitted_provider_init_failed_total"@, metrics.pool_member_omitted_provider_init_failed_total)
            &&& fields[31] == ("rc_pool_removed_pin_repick_total"@, metrics.pool_removed_pin_repick_total)
            &&& fields[32] == ("rc_bedrock_validation_unmatched_total"@, metrics.bedrock_validation_unmatched_total)
        }),
{
}

// ---------------------------------------------------------------------------
// Metadata and requests
// ---------------------------------------------------------------------------

/// The text of an optional string is that of the string.
pub proof fn law_option_text(text: String)
    ensures
        option_text(Some(text)) == Some(text@),
        option_text(None) is None,
{
}

/// Blank metadata has recorded nothing.
pub proof fn law_blank(meta: DispatchMeta)
    requires
        meta.is_blank(),
    ensures
        meta.attempt_count == 0,
        meta.fallback_count == 0,
        meta.served_provider is None,
        meta.served_provider_kind is None,
        meta.served_model is None,
        meta.served_upstream is None,
        !meta.served_forwarded_credential,
        meta.served_seat is None,
        meta.cache_strategy is None,
        meta.cache_front_decision is None,
        meta.cache_terminal_decision is None,
        meta.reduction_strategy is None,
        meta.reduction_strings_compressed is None,
        meta.reduction_strings_skipped is None,
        meta.reduction_strings_rejected is None,
        meta.reduction_bytes_saved is None,
        meta.selection_decision is None,
        meta.would_trim_tokens is None,
        meta.would_trim_break_even_k is None,
        meta.would_trim_k_floor is None,
        meta.would_trim_shadow_misfire is None,
        meta.prefix_epoch_event is None,
        meta.would_trim_dedup_tokens is None,
        meta.would_trim_supersession_tokens is None,
        meta.would_trim_path_units is None,
        meta.would_trim_path_extractable is None,
        meta.would_trim_recorder_version is None,
        meta.would_trim_raw_marks is None,
        meta.would_trim_context_fraction is None,
        meta.calib_estimated_tokens is None,
        meta.learned_capabilities@.len() == 0,
        meta.capability_observations@.len() == 0,
        meta.cleared_capabilities@.len() == 0,
        meta.replay_degradation is None,
{
}

/// What carries nothing holds nothing of a client and no knob of a target.
pub proof fn law_carries_nothing(inner: RoutectlInternal)
    requires
        inner.carries_nothing(),
    ensures
        inner.reasoning_dialect is None,
        inner.history_reasoning is None,
        inner.claude_code_headers@.len() == 0,
        inner.provenance is Library,
        inner.header_extras is None,
        inner.inbound_session_key is None,
        inner.forwarded_bearer is None,
        inner.stainless_headers@.len() == 0,
        inner.responses_input_passthrough@.len() == 0,
        !inner.supports_adaptive_thinking,
        inner.effort_levels@.len() == 0,
        inner.max_thinking_budget == 0,
        inner.max_output_tokens == 0,
{
}

/// The same body asks for the same completion.
pub proof fn law_same_body(a: ChatRequest, b: ChatRequest)
    requires
        a.same_body(b),
    ensures
        a.model == b.model,
        a.system == b.system,
        a.tools == b.tools,
        a.messages == b.messages,
        a.max_tokens == b.max_tokens,
        a.reasoning == b.reasoning,
{
}

/// An alias is read as what it stands for, a chain target by target, and a
/// pattern as its prefix and its alias.
pub proof fn law_alias_read(single: String, chain: Vec<String>, globs: Seq<AliasGlob>, i: int)
    ensures
        AliasValue::Single(single)@ == AliasView::Single(single@),
        AliasValue::Chain(chain)@ is Chain,
        (AliasValue::Chain(chain)@)->Chain_0.len() == chain@.len(),
        0 <= i < chain@.len() ==> (AliasValue::Chain(chain)@)->Chain_0[i] == chain@[i]@,
        glob_views(globs).len() == globs.len(),
        0 <= i < globs.len() ==> glob_views(globs)[i] == (globs[i].prefix@, globs[i].value@),
{
}

} // verus!
