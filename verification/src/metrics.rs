//! Observability counters of a router. A counter wraps at its width.

use vstd::prelude::*;

verus! {

/// Why a pool was built without one of its members.
#[derive(Clone, Copy, PartialEq, Eq, Structural, Debug)]
pub enum PoolOmissionReason {
    /// It has no credential.
    CredentialMissing,
    /// Its credential could not be read.
    CredentialUnreadable,
    /// Its credential is invalid.
    CredentialInvalid,
    /// Its provider failed to start.
    ProviderInitFailed,
}

/// The phase that a negative was learned in.
#[derive(Clone, Copy, PartialEq, Eq, Structural, Debug)]
pub enum FailurePhase {
    /// The first phase.
    F1,
    /// The second phase.
    F2,
    /// The third phase.
    F3,
}

/// How the quota decided a placement.
#[derive(Clone, Copy, PartialEq, Eq, Structural, Debug)]
pub enum QuotaDecision {
    /// The quota had no say.
    Dormant,
    /// A seat in the tier below its cap.
    BelowCapTier,
    /// Every seat at its cap: the one with most remaining.
    AllCappedMostRemaining,
    /// Some seats unknown.
    MixedUnknownFallback,
    /// Every seat unknown.
    AllUnknownFallback,
}

/// The quota placement counters.
#[derive(Clone, Copy, PartialEq, Eq, Structural, Debug)]
pub struct QuotaPlacementTotals {
    /// Placements in the tier below its cap.
    pub below_cap: u64,
    /// Placements with every seat at its cap.
    pub all_capped: u64,
    /// Placements with some seats unknown.
    pub mixed_unknown: u64,
    /// Placements with every seat unknown.
    pub all_unknown: u64,
}

/// The pool counters.
#[derive(Clone, Copy, PartialEq, Eq, Structural, Debug)]
pub struct PoolTotals {
    /// Dispatches to a pool.
    pub dispatch: u64,
    /// Dispatches to a pool with a member missing.
    pub degraded_dispatch: u64,
    /// Dispatches to a pool without a usable member.
    pub unavailable: u64,
    /// Members omitted for want of a credential.
    pub omitted_credential_missing: u64,
    /// Members omitted for a credential that could not be read.
    pub omitted_credential_unreadable: u64,
    /// Members omitted for an invalid credential.
    pub omitted_credential_invalid: u64,
    /// Members omitted because their provider failed to start.
    pub omitted_provider_init_failed: u64,
    /// Pins moved off a member that left its pool.
    pub removed_pin_repick: u64,
}

/// The counters of a router.
#[derive(Clone, Copy, PartialEq, Eq, Structural, Debug)]
pub struct RouterMetrics {
    /// Upstream failures that no class fits.
    pub unknown_failure_classifications_total: u64,
    /// Upstream refusals of a feature.
    pub feature_unsupported_total: u64,
    /// Negatives learned, in any phase.
    pub learned_negatives_total: u64,
    /// Negatives learned in the first phase.
    pub learned_negatives_f1_total: u64,
    /// Negatives learned in the second phase.
    pub learned_negatives_f2_total: u64,
    /// Re-probes of a learned negative.
    pub probe_attempts_total: u64,
    /// Re-probes that failed.
    pub probe_failures_total: u64,
    /// Reloads that cleared the learned registry.
    pub invalidations_total: u64,
    /// Requests served by the tail of a filtered chain.
    pub d17_tail_total: u64,
    /// Fields stripped before dispatch.
    pub strip_total: u64,
    /// Strips taken back.
    pub strip_rollback_total: u64,
    /// Strips that strict mode rejected.
    pub strip_strict_rejected_total: u64,
    /// Observations that a mask suppressed.
    pub mask_suppressed_total: u64,
    /// Bedrock validation errors that no rule matched.
    pub bedrock_validation_unmatched_total: u64,
    /// Second-phase negatives suppressed within one chain.
    pub f2_same_chain_suppressed_total: u64,
    /// Feature names that no rule matched.
    pub feature_naming_unmatched_total: u64,
    /// Features verified to work.
    pub verified_working_total: u64,
    /// Third-phase suspects.
    pub f3_suspect_total: u64,
    /// Targets that the window gate skipped.
    pub window_gate_skips_total: u64,
    /// Placements in the tier below its cap.
    pub quota_placement_below_cap_total: u64,
    /// Placements with every seat at its cap.
    pub quota_placement_all_capped_total: u64,
    /// Placements with some seats unknown.
    pub quota_placement_mixed_unknown_total: u64,
    /// Placements with every seat unknown.
    pub quota_placement_all_unknown_total: u64,
    /// Requests that overflowed the context window.
    pub context_window_overflow_total: u64,
    /// Dispatches to a pool.
    pub pool_dispatch_total: u64,
    /// Dispatches to a pool with a member missing.
    pub pool_degraded_dispatch_total: u64,
    /// Dispatches to a pool without a usable member.
    pub pool_unavailable_total: u64,
    /// Members omitted for want of a credential.
    pub pool_member_omitted_credential_missing_total: u64,
    /// Members omitted for a credential that could not be read.
    pub pool_member_omitted_credential_unreadable_total: u64,
    /// Members omitted for an invalid credential.
    pub pool_member_omitted_credential_invalid_total: u64,
    /// Members omitted because their provider failed to start.
    pub pool_member_omitted_provider_init_failed_total: u64,
    /// Pins moved off a member that left its pool.
    pub pool_removed_pin_repick_total: u64,
}

/// A counter after one more event.
pub open spec fn bumped(count: u64) -> u64 {
    count.wrapping_add(1)
}

/// A counter after `n` more events.
pub open spec fn bumped_by(count: u64, n: nat) -> u64
    decreases n,
{
    if n == 0 {
        count
    } else {
        bumped(bumped_by(count, (n - 1) as nat))
    }
}

/// Counters that have counted nothing.
pub open spec fn zeroed() -> RouterMetrics {
    RouterMetrics {
        unknown_failure_classifications_total: 0,
        feature_unsupported_total: 0,
        learned_negatives_total: 0,
        learned_negatives_f1_total: 0,
        learned_negatives_f2_total: 0,
        probe_attempts_total: 0,
        probe_failures_total: 0,
        invalidations_total: 0,
        d17_tail_total: 0,
        strip_total: 0,
        strip_rollback_total: 0,
        strip_strict_rejected_total: 0,
        mask_suppressed_total: 0,
        bedrock_validation_unmatched_total: 0,
        f2_same_chain_suppressed_total: 0,
        feature_naming_unmatched_total: 0,
        verified_working_total: 0,
        f3_suspect_total: 0,
        window_gate_skips_total: 0,
        quota_placement_below_cap_total: 0,
        quota_placement_all_capped_total: 0,
        quota_placement_mixed_unknown_total: 0,
        quota_placement_all_unknown_total: 0,
        context_window_overflow_total: 0,
        pool_dispatch_total: 0,
        pool_degraded_dispatch_total: 0,
        pool_unavailable_total: 0,
        pool_member_omitted_credential_missing_total: 0,
        pool_member_omitted_credential_unreadable_total: 0,
        pool_member_omitted_credential_invalid_total: 0,
        pool_member_omitted_provider_init_failed_total: 0,
        pool_removed_pin_repick_total: 0,
    }
}

impl Default for RouterMetrics {
    fn default() -> (out: Self)
        ensures
            out == zeroed(),
    {
        RouterMetrics {
            unknown_failure_classifications_total: 0,
            feature_unsupported_total: 0,
            learned_negatives_total: 0,
            learned_negatives_f1_total: 0,
            learned_negatives_f2_total: 0,
            probe_attempts_total: 0,
            probe_failures_total: 0,
            invalidations_total: 0,
            d17_tail_total: 0,
            strip_total: 0,
            strip_rollback_total: 0,
            strip_strict_rejected_total: 0,
            mask_suppressed_total: 0,
            bedrock_validation_unmatched_total: 0,
            f2_same_chain_suppressed_total: 0,
            feature_naming_unmatched_total: 0,
            verified_working_total: 0,
            f3_suspect_total: 0,
            window_gate_skips_total: 0,
            quota_placement_below_cap_total: 0,
            quota_placement_all_capped_total: 0,
            quota_placement_mixed_unknown_total: 0,
            quota_placement_all_unknown_total: 0,
            context_window_overflow_total: 0,
            pool_dispatch_total: 0,
            pool_degraded_dispatch_total: 0,
            pool_unavailable_total: 0,
            pool_member_omitted_credential_missing_total: 0,
            pool_member_omitted_credential_unreadable_total: 0,
            pool_member_omitted_credential_invalid_total: 0,
            pool_member_omitted_provider_init_failed_total: 0,
            pool_removed_pin_repick_total: 0,
        }
    }
}

impl RouterMetrics {
    /// Counts a dispatch to a pool.
    pub fn incr_pool_dispatch(&mut self)
        ensures
            *final(self) == (RouterMetrics {
                pool_dispatch_total: bumped(old(self).pool_dispatch_total),
                ..*old(self)
            }),
    {
        self.pool_dispatch_total = self.pool_dispatch_total.wrapping_add(1);
    }

    /// Counts a dispatch to a pool with a member missing.
    pub fn incr_pool_degraded_dispatch(&mut self)
        ensures
            *final(self) == (RouterMetrics {
                pool_degraded_dispatch_total: bumped(old(self).pool_degraded_dispatch_total),
                ..*old(self)
            }),
    {
        self.pool_degraded_dispatch_total = self.pool_degraded_dispatch_total.wrapping_add(1);
    }

    /// Counts a dispatch to a pool without a usable member.
    pub fn incr_pool_unavailable(&mut self)
        ensures
            *final(self) == (RouterMetrics {
                pool_unavailable_total: bumped(old(self).pool_unavailable_total),
                ..*old(self)
            }),
    {
        self.pool_unavailable_total = self.pool_unavailable_total.wrapping_add(1);
    }

    /// The counters after a member was omitted.
    pub open spec fn with_omission(self, reason: PoolOmissionReason) -> RouterMetrics {
        match reason {
            PoolOmissionReason::CredentialMissing => RouterMetrics {
                pool_member_omitted_credential_missing_total: bumped(
                    self.pool_member_omitted_credential_missing_total,
                ),
                ..self
            },
            PoolOmissionReason::CredentialUnreadable => RouterMetrics {
                pool_member_omitted_credential_unreadable_total: bumped(
                    self.pool_member_omitted_credential_unreadable_total,
                ),
                ..self
            },
            PoolOmissionReason::CredentialInvalid => RouterMetrics {
                pool_member_omitted_credential_invalid_total: bumped(
                    self.pool_member_omitted_credential_invalid_total,
                ),
                ..self
            },
            PoolOmissionReason::ProviderInitFailed => RouterMetrics {
                pool_member_omitted_provider_init_failed_total: bumped(
                    self.pool_member_omitted_provider_init_failed_total,
                ),
                ..self
            },
        }
    }

    /// Counts a member omitted from its pool.
    pub fn incr_pool_member_omitted(&mut self, reason: PoolOmissionReason)
        ensures
            *final(self) == old(self).with_omission(reason),
    {
        match reason {
            PoolOmissionReason::CredentialMissing => {
                self.pool_member_omitted_credential_missing_total =
                self.pool_member_omitted_credential_missing_total.wrapping_add(1);
            },
            PoolOmissionReason::CredentialUnreadable => {
                self.pool_member_omitted_credential_unreadable_total =
                self.pool_member_omitted_credential_unreadable_total.wrapping_add(1);
            },
            PoolOmissionReason::CredentialInvalid => {
                self.pool_member_omitted_credential_invalid_total =
                self.pool_member_omitted_credential_invalid_total.wrapping_add(1);
            },
            PoolOmissionReason::ProviderInitFailed => {
                self.pool_member_omitted_provider_init_failed_total =
                self.pool_member_omitted_provider_init_failed_total.wrapping_add(1);
            },
        }
    }

    /// Counts a pin moved off a member that left its pool.
    pub fn incr_pool_removed_pin_repick(&mut self)
        ensures
            *final(self) == (RouterMetrics {
                pool_removed_pin_repick_total: bumped(old(self).pool_removed_pin_repick_total),
                ..*old(self)
            }),
    {
        self.pool_removed_pin_repick_total = self.pool_removed_pin_repick_total.wrapping_add(1);
    }

    /// Counts a failure that no class fits.
    pub fn incr_unknown_failure_classification(&mut self)
        ensures
            *final(self) == (RouterMetrics {
                unknown_failure_classifications_total: bumped(old(self).unknown_failure_classifications_total),
                ..*old(self)
            }),
    {
        self.unknown_failure_classifications_total = self.unknown_failure_classifications_total.wrapping_add(1);
    }

    /// Counts a refusal of a feature.
    pub fn incr_feature_unsupported(&mut self)
        ensures
            *final(self) == (RouterMetrics {
                feature_unsupported_total: bumped(old(self).feature_unsupported_total),
                ..*old(self)
            }),
    {
        self.feature_unsupported_total = self.feature_unsupported_total.wrapping_add(1);
    }

    /// Counts a re-probe.
    pub fn incr_probe_attempts(&mut self)
        ensures
            *final(self) == (RouterMetrics {
                probe_attempts_total: bumped(old(self).probe_attempts_total),
                ..*old(self)
            }),
    {
        self.probe_attempts_total = self.probe_attempts_total.wrapping_add(1);
    }

    /// Counts a failed re-probe.
    pub fn incr_probe_failures(&mut self)
        ensures
            *final(self) == (RouterMetrics {
                probe_failures_total: bumped(old(self).probe_failures_total),
                ..*old(self)
            }),
    {
        self.probe_failures_total = self.probe_failures_total.wrapping_add(1);
    }

    /// Counts a reload that cleared the learned registry.
    pub fn incr_invalidations(&mut self)
        ensures
            *final(self) == (RouterMetrics {
                invalidations_total: bumped(old(self).invalidations_total),
                ..*old(self)
            }),
    {
        self.invalidations_total = self.invalidations_total.wrapping_add(1);
    }

    /// Counts a request served by the tail of a filtered chain.
    pub fn incr_d17_tail(&mut self)
        ensures
            *final(self) == (RouterMetrics {
                d17_tail_total: bumped(old(self).d17_tail_total),
                ..*old(self)
            }),
    {
        self.d17_tail_total = self.d17_tail_total.wrapping_add(1);
    }

    /// Counts a stripped field.
    pub fn incr_strip(&mut self)
        ensures
            *final(self) == (RouterMetrics {
                strip_total: bumped(old(self).strip_total),
                ..*old(self)
            }),
    {
        self.strip_total = self.strip_total.wrapping_add(1);
    }

    /// Counts a strip taken back.
    pub fn incr_strip_rollback(&mut self)
        ensures
            *final(self) == (RouterMetrics {
                strip_rollback_total: bumped(old(self).strip_rollback_total),
                ..*old(self)
            }),
    {
        self.strip_rollback_total = self.strip_rollback_total.wrapping_add(1);
    }

    /// Counts a strip that strict mode rejected.
    pub fn incr_strip_strict_rejected(&mut self)
        ensures
            *final(self) == (RouterMetrics {
                strip_strict_rejected_total: bumped(old(self).strip_strict_rejected_total),
                ..*old(self)
            }),
    {
        self.strip_strict_rejected_total = self.strip_strict_rejected_total.wrapping_add(1);
    }

    /// Counts an observation that a mask suppressed.
    pub fn incr_mask_suppressed(&mut self)
        ensures
            *final(self) == (RouterMetrics {
                mask_suppressed_total: bumped(old(self).mask_suppressed_total),
                ..*old(self)
            }),
    {
        self.mask_suppressed_total = self.mask_suppressed_total.wrapping_add(1);
    }

    /// Counts a Bedrock validation error that no rule matched.
    pub fn incr_bedrock_validation_unmatched(&mut self)
        ensures
            *final(self) == (RouterMetrics {
                bedrock_validation_unmatched_total: bumped(old(self).bedrock_validation_unmatched_total),
                ..*old(self)
            }),
    {
        self.bedrock_validation_unmatched_total = self.bedrock_validation_unmatched_total.wrapping_add(1);
    }

    /// Counts a second-phase negative suppressed within one chain.
    pub fn incr_f2_same_chain_suppressed(&mut self)
        ensures
            *final(self) == (RouterMetrics {
                f2_same_chain_suppressed_total: bumped(old(self).f2_same_chain_suppressed_total),
                ..*old(self)
            }),
    {
        self.f2_same_chain_suppressed_total = self.f2_same_chain_suppressed_total.wrapping_add(1);
    }

    /// Counts a feature name that no rule matched.
    pub fn incr_feature_naming_unmatched(&mut self)
        ensures
            *final(self) == (RouterMetrics {
                feature_naming_unmatched_total: bumped(old(self).feature_naming_unmatched_total),
                ..*old(self)
            }),
    {
        self.feature_naming_unmatched_total = self.feature_naming_unmatched_total.wrapping_add(1);
    }

    /// Counts a feature verified to work.
    pub fn incr_verified_working(&mut self)
        ensures
            *final(self) == (RouterMetrics {
                verified_working_total: bumped(old(self).verified_working_total),
                ..*old(self)
            }),
    {
        self.verified_working_total = self.verified_working_total.wrapping_add(1);
    }

    /// Counts a third-phase suspect.
    pub fn incr_f3_suspect(&mut self)
        ensures
            *final(self) == (RouterMetrics {
                f3_suspect_total: bumped(old(self).f3_suspect_total),
                ..*old(self)
            }),
    {
        self.f3_suspect_total = self.f3_suspect_total.wrapping_add(1);
    }

    /// Counts a context window overflow.
    pub fn incr_context_window_overflow(&mut self)
        ensures
            *final(self) == (RouterMetrics {
                context_window_overflow_total: bumped(old(self).context_window_overflow_total),
                ..*old(self)
            }),
    {
        self.context_window_overflow_total = self.context_window_overflow_total.wrapping_add(1);
    }

    /// The counters after a negative was learned in a phase. The third phase
    /// has no counter of its own.
    pub open spec fn with_negative(self, phase: FailurePhase) -> RouterMetrics {
        let counted = RouterMetrics {
            learned_negatives_total: bumped(self.learned_negatives_total),
            ..self
        };
        match phase {
            FailurePhase::F1 => RouterMetrics {
                learned_negatives_f1_total: bumped(self.learned_negatives_f1_total),
                ..counted
            },
            FailurePhase::F2 => RouterMetrics {
                learned_negatives_f2_total: bumped(self.learned_negatives_f2_total),
                ..counted
            },
            FailurePhase::F3 => counted,
        }
    }

    /// Counts a negative learned in a phase.
    pub fn incr_learned_negatives(&mut self, phase: FailurePhase)
        ensures
            *final(self) == old(self).with_negative(phase),
    {
        self.learned_negatives_total = self.learned_negatives_total.wrapping_add(1);
        match phase {
            FailurePhase::F1 => {
                self.learned_negatives_f1_total = self.learned_negatives_f1_total.wrapping_add(1);
            },
            FailurePhase::F2 => {
                self.learned_negatives_f2_total = self.learned_negatives_f2_total.wrapping_add(1);
            },
            FailurePhase::F3 => {},
        }
    }

    /// Counts a target that the window gate skipped; the new count.
    pub fn incr_window_gate_skip(&mut self) -> (total: u64)
        ensures
            *final(self) == (RouterMetrics {
                window_gate_skips_total: bumped(old(self).window_gate_skips_total),
                ..*old(self)
            }),
            total == bumped(old(self).window_gate_skips_total),
    {
        self.window_gate_skips_total = self.window_gate_skips_total.wrapping_add(1);
        self.window_gate_skips_total
    }

    /// The counters after a placement. A dormant one is not counted.
    pub open spec fn with_placement(self, decision: QuotaDecision) -> RouterMetrics {
        match decision {
            QuotaDecision::Dormant => self,
            QuotaDecision::BelowCapTier => RouterMetrics {
                quota_placement_below_cap_total: bumped(self.quota_placement_below_cap_total),
                ..self
            },
            QuotaDecision::AllCappedMostRemaining => RouterMetrics {
                quota_placement_all_capped_total: bumped(self.quota_placement_all_capped_total),
                ..self
            },
            QuotaDecision::MixedUnknownFallback => RouterMetrics {
                quota_placement_mixed_unknown_total: bumped(
                    self.quota_placement_mixed_unknown_total,
                ),
                ..self
            },
            QuotaDecision::AllUnknownFallback => RouterMetrics {
                quota_placement_all_unknown_total: bumped(self.quota_placement_all_unknown_total),
                ..self
            },
        }
    }

    /// Counts a placement that the quota decided; the placement counters.
    pub fn incr_quota_placement(&mut self, decision: QuotaDecision) -> (totals:
        QuotaPlacementTotals)
        ensures
            *final(self) == old(self).with_placement(decision),
            totals == final(self).placements(),
    {
        match decision {
            QuotaDecision::Dormant => {},
            QuotaDecision::BelowCapTier => {
                self.quota_placement_below_cap_total =
                self.quota_placement_below_cap_total.wrapping_add(1);
            },
            QuotaDecision::AllCappedMostRemaining => {
                self.quota_placement_all_capped_total =
                self.quota_placement_all_capped_total.wrapping_add(1);
            },
            QuotaDecision::MixedUnknownFallback => {
                self.quota_placement_mixed_unknown_total =
                self.quota_placement_mixed_unknown_total.wrapping_add(1);
            },
            QuotaDecision::AllUnknownFallback => {
                self.quota_placement_all_unknown_total =
                self.quota_placement_all_unknown_total.wrapping_add(1);
            },
        }
        self.quota_placement_totals()
    }

    /// The quota placement counters.
    pub open spec fn placements(self) -> QuotaPlacementTotals {
        QuotaPlacementTotals {
            below_cap: self.quota_placement_below_cap_total,
            all_capped: self.quota_placement_all_capped_total,
            mixed_unknown: self.quota_placement_mixed_unknown_total,
            all_unknown: self.quota_placement_all_unknown_total,
        }
    }

    /// The quota placement counters.
    pub fn quota_placement_totals(&self) -> (totals: QuotaPlacementTotals)
        ensures
            totals == self.placements(),
    {
        QuotaPlacementTotals {
            below_cap: self.quota_placement_below_cap_total,
            all_capped: self.quota_placement_all_capped_total,
            mixed_unknown: self.quota_placement_mixed_unknown_total,
            all_unknown: self.quota_placement_all_unknown_total,
        }
    }

    /// The pool counters.
    pub open spec fn pools(self) -> PoolTotals {
        PoolTotals {
            dispatch: self.pool_dispatch_total,
            degraded_dispatch: self.pool_degraded_dispatch_total,
            unavailable: self.pool_unavailable_total,
            omitted_credential_missing: self.pool_member_omitted_credential_missing_total,
            omitted_credential_unreadable: self.pool_member_omitted_credential_unreadable_total,
            omitted_credential_invalid: self.pool_member_omitted_credential_invalid_total,
            omitted_provider_init_failed: self.pool_member_omitted_provider_init_failed_total,
            removed_pin_repick: self.pool_removed_pin_repick_total,
        }
    }

    /// The pool counters.
    pub fn pool_totals(&self) -> (totals: PoolTotals)
        ensures
            totals == self.pools(),
    {
        PoolTotals {
            dispatch: self.pool_dispatch_total,
            degraded_dispatch: self.pool_degraded_dispatch_total,
            unavailable: self.pool_unavailable_total,
            omitted_credential_missing: self.pool_member_omitted_credential_missing_total,
            omitted_credential_unreadable: self.pool_member_omitted_credential_unreadable_total,
            omitted_credential_invalid: self.pool_member_omitted_credential_invalid_total,
            omitted_provider_init_failed: self.pool_member_omitted_provider_init_failed_total,
            removed_pin_repick: self.pool_removed_pin_repick_total,
        }
    }

    /// Upstream failures that no class fits.
    pub fn unknown_failure_classifications_total(&self) -> (total: u64)
        ensures
            total == self.unknown_failure_classifications_total,
    {
        self.unknown_failure_classifications_total
    }

    /// Upstream refusals of a feature.
    pub fn feature_unsupported_total(&self) -> (total: u64)
        ensures
            total == self.feature_unsupported_total,
    {
        self.feature_unsupported_total
    }

    /// Negatives learned, in any phase.
    pub fn learned_negatives_total(&self) -> (total: u64)
        ensures
            total == self.learned_negatives_total,
    {
        self.learned_negatives_total
    }

    /// Reloads that cleared the learned registry.
    pub fn invalidations_total(&self) -> (total: u64)
        ensures
            total == self.invalidations_total,
    {
        self.invalidations_total
    }

    /// Re-probes of a learned negative.
    pub fn probe_attempts_total(&self) -> (total: u64)
        ensures
            total == self.probe_attempts_total,
    {
        self.probe_attempts_total
    }

    /// Re-probes that failed.
    pub fn probe_failures_total(&self) -> (total: u64)
        ensures
            total == self.probe_failures_total,
    {
        self.probe_failures_total
    }

    /// Requests served by the tail of a filtered chain.
    pub fn d17_tail_total(&self) -> (total: u64)
        ensures
            total == self.d17_tail_total,
    {
        self.d17_tail_total
    }

    /// Fields stripped before dispatch.
    pub fn strip_total(&self) -> (total: u64)
        ensures
            total == self.strip_total,
    {
        self.strip_total
    }

    /// Strips taken back.
    pub fn strip_rollback_total(&self) -> (total: u64)
        ensures
            total == self.strip_rollback_total,
    {
        self.strip_rollback_total
    }

    /// Strips that strict mode rejected.
    pub fn strip_strict_rejected_total(&self) -> (total: u64)
        ensures
            total == self.strip_strict_rejected_total,
    {
        self.strip_strict_rejected_total
    }

    /// Observations that a mask suppressed.
    pub fn mask_suppressed_total(&self) -> (total: u64)
        ensures
            total == self.mask_suppressed_total,
    {
        self.mask_suppressed_total
    }

    /// Bedrock validation errors that no rule matched.
    pub fn bedrock_validation_unmatched_total(&self) -> (total: u64)
        ensures
            total == self.bedrock_validation_unmatched_total,
    {
        self.bedrock_validation_unmatched_total
    }

    /// Negatives learned in the first phase.
    pub fn learned_negatives_f1_total(&self) -> (total: u64)
        ensures
            total == self.learned_negatives_f1_total,
    {
        self.learned_negatives_f1_total
    }

    /// Negatives learned in the second phase.
    pub fn learned_negatives_f2_total(&self) -> (total: u64)
        ensures
            total == self.learned_negatives_f2_total,
    {
        self.learned_negatives_f2_total
    }

    /// Second-phase negatives suppressed within one chain.
    pub fn f2_same_chain_suppressed_total(&self) -> (total: u64)
        ensures
            total == self.f2_same_chain_suppressed_total,
    {
        self.f2_same_chain_suppressed_total
    }

    /// Feature names that no rule matched.
    pub fn feature_naming_unmatched_total(&self) -> (total: u64)
        ensures
            total == self.feature_naming_unmatched_total,
    {
        self.feature_naming_unmatched_total
    }

    /// Features verified to work.
    pub fn verified_working_total(&self) -> (total: u64)
        ensures
            total == self.verified_working_total,
    {
        self.verified_working_total
    }

    /// Third-phase suspects.
    pub fn f3_suspect_total(&self) -> (total: u64)
        ensures
            total == self.f3_suspect_total,
    {
        self.f3_suspect_total
    }

    /// Targets that the window gate skipped.
    pub fn window_gate_skips_total(&self) -> (total: u64)
        ensures
            total == self.window_gate_skips_total,
    {
        self.window_gate_skips_total
    }

    /// Requests that overflowed the context window.
    pub fn context_window_overflow_total(&self) -> (total: u64)
        ensures
            total == self.context_window_overflow_total,
    {
        self.context_window_overflow_total
    }

    /// The fields of a snapshot line, in the order in which they are logged.
    pub open spec fn snapshot_fields(self, quota_refused_by_admission_total: u64) -> Seq<
        (Seq<char>, u64),
    > {
        seq![
            ("rc_unknown_failure_classifications_total"@, self.unknown_failure_classifications_total),
            ("rc_feature_unsupported_total"@, self.feature_unsupported_total),
            ("rc_learned_negatives_total"@, self.learned_negatives_total),
            ("rc_learned_negatives_f1_total"@, self.learned_negatives_f1_total),
            ("rc_learned_negatives_f2_total"@, self.learned_negatives_f2_total),
            ("rc_probe_attempts_total"@, self.probe_attempts_total),
            ("rc_probe_failures_total"@, self.probe_failures_total),
            ("rc_invalidations_total"@, self.invalidations_total),
            ("rc_d17_tail_total"@, self.d17_tail_total),
            ("rc_strip_total"@, self.strip_total),
            ("rc_strip_rollback_total"@, self.strip_rollback_total),
            ("rc_strip_strict_rejected_total"@, self.strip_strict_rejected_total),
            ("rc_mask_suppressed_total"@, self.mask_suppressed_total),
            ("rc_f2_same_chain_suppressed_total"@, self.f2_same_chain_suppressed_total),
            ("rc_feature_naming_unmatched_total"@, self.feature_naming_unmatched_total),
            ("rc_verified_working_total"@, self.verified_working_total),
            ("rc_f3_suspect_total"@, self.f3_suspect_total),
            ("rc_window_gate_skips_total"@, self.window_gate_skips_total),
            ("rc_context_window_overflow_total"@, self.context_window_overflow_total),
            ("rc_quota_placement_below_cap_total"@, self.quota_placement_below_cap_total),
            ("rc_quota_placement_all_capped_total"@, self.quota_placement_all_capped_total),
            ("rc_quota_placement_mixed_unknown_total"@, self.quota_placement_mixed_unknown_total),
            ("rc_quota_placement_all_unknown_total"@, self.quota_placement_all_unknown_total),
            ("rc_quota_refused_by_admission_total"@, quota_refused_by_admission_total),
            ("rc_pool_dispatch_total"@, self.pool_dispatch_total),
            ("rc_pool_degraded_dispatch_total"@, self.pool_degraded_dispatch_total),
            ("rc_pool_unavailable_total"@, self.pool_unavailable_total),
            ("rc_pool_member_omitted_credential_missing_total"@, self.pool_member_omitted_credential_missing_total),
            ("rc_pool_member_omitted_credential_unreadable_total"@, self.pool_member_omitted_credential_unreadable_total),
            ("rc_pool_member_omitted_credential_invalid_total"@, self.pool_member_omitted_credential_invalid_total),
            ("rc_pool_member_omitted_provider_init_failed_total"@, self.pool_member_omitted_provider_init_failed_total),
            ("rc_pool_removed_pin_repick_total"@, self.pool_removed_pin_repick_total),
            ("rc_bedrock_validation_unmatched_total"@, self.bedrock_validation_unmatched_total),
        ]
    }

    /// The fields of a snapshot line, in the order in which they are logged.
    pub fn log_snapshot(&self, quota_refused_by_admission_total: u64) -> (fields: Vec<
        (&'static str, u64),
    >)
        ensures
            fields@.map_values(|f: (&'static str, u64)| (f.0@, f.1)) == self.snapshot_fields(
                quota_refused_by_admission_total,
            ),
    {
        let quota = self.quota_placement_totals();
        let pool = self.pool_totals();
        let mut fields: Vec<(&'static str, u64)> = Vec::new();
        fields.push(("rc_unknown_failure_classifications_total", self.unknown_failure_classifications_total()));
        fields.push(("rc_feature_unsupported_total", self.feature_unsupported_total()));
        fields.push(("rc_learned_negatives_total", self.learned_negatives_total()));
        fields.push(("rc_learned_negatives_f1_total", self.learned_negatives_f1_total()));
        fields.push(("rc_learned_negatives_f2_total", self.learned_negatives_f2_total()));
        fields.push(("rc_probe_attempts_total", self.probe_attempts_total()));
        fields.push(("rc_probe_failures_total", self.probe_failures_total()));
        fields.push(("rc_invalidations_total", self.invalidations_total()));
        fields.push(("rc_d17_tail_total", self.d17_tail_total()));
        fields.push(("rc_strip_total", self.strip_total()));
        fields.push(("rc_strip_rollback_total", self.strip_rollback_total()));
        fields.push(("rc_strip_strict_rejected_total", self.strip_strict_rejected_total()));
        fields.push(("rc_mask_suppressed_total", self.mask_suppressed_total()));
        fields.push(("rc_f2_same_chain_suppressed_total", self.f2_same_chain_suppressed_total()));
        fields.push(("rc_feature_naming_unmatched_total", self.feature_naming_unmatched_total()));
        fields.push(("rc_verified_working_total", self.verified_working_total()));
        fields.push(("rc_f3_suspect_total", self.f3_suspect_total()));
        fields.push(("rc_window_gate_skips_total", self.window_gate_skips_total()));
        fields.push(("rc_context_window_overflow_total", self.context_window_overflow_total()));
        fields.push(("rc_quota_placement_below_cap_total", quota.below_cap));
        fields.push(("rc_quota_placement_all_capped_total", quota.all_capped));
        fields.push(("rc_quota_placement_mixed_unknown_total", quota.mixed_unknown));
        fields.push(("rc_quota_placement_all_unknown_total", quota.all_unknown));
        fields.push(("rc_quota_refused_by_admission_total", quota_refused_by_admission_total));
        fields.push(("rc_pool_dispatch_total", pool.dispatch));
        fields.push(("rc_pool_degraded_dispatch_total", pool.degraded_dispatch));
        fields.push(("rc_pool_unavailable_total", pool.unavailable));
        fields.push(("rc_pool_member_omitted_credential_missing_total", pool.omitted_credential_missing));
        fields.push(("rc_pool_member_omitted_credential_unreadable_total", pool.omitted_credential_unreadable));
        fields.push(("rc_pool_member_omitted_credential_invalid_total", pool.omitted_credential_invalid));
        fields.push(("rc_pool_member_omitted_provider_init_failed_total", pool.omitted_provider_init_failed));
        fields.push(("rc_pool_removed_pin_repick_total", pool.removed_pin_repick));
        fields.push(("rc_bedrock_validation_unmatched_total", self.bedrock_validation_unmatched_total()));
        assert(fields@.map_values(|f: (&'static str, u64)| (f.0@, f.1)) =~= self.snapshot_fields(
            quota_refused_by_admission_total,
        ));
        fields
    }
}

} // verus!
