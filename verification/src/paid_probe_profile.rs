//! Sizing of a paid probe from what the catalog confirms.

use vstd::prelude::*;

use crate::probe::FieldVerdictKey;
use crate::probe_seat::seat_provider;
use crate::probe_seat::sole_seat;
use crate::resolved::CatalogRow;
use crate::resolved::EffectiveRow;
use crate::router::Router;
use crate::text::same_text;

verus! {

/// The smallest output allowance at which the legacy thinking shape keeps the
/// field under test: one more than the smallest thinking budget.
pub const LEGACY_MIN_VIABLE_MAX_TOKENS: u32 = 1025;

/// The smallest output allowance at which the adaptive thinking shape keeps
/// the field under test.
pub const ADAPTIVE_MIN_VIABLE_MAX_TOKENS: u32 = 1;

/// How a paid probe is sized.
#[derive(Clone, Copy, PartialEq, Eq, Structural, Debug)]
pub struct PaidProbeProfile {
    max_tokens: u32,
    output_ceiling_tokens: u32,
}

impl PaidProbeProfile {
    /// The output allowance of the probe.
    pub closed spec fn allowance(self) -> u32 {
        self.max_tokens
    }

    /// The output ceiling that the probe was admitted against.
    pub closed spec fn ceiling(self) -> u32 {
        self.output_ceiling_tokens
    }

    /// The output allowance of the probe.
    pub fn max_tokens(&self) -> (tokens: u32)
        ensures
            tokens == self.allowance(),
    {
        self.max_tokens
    }

    /// The output ceiling that the probe was admitted against.
    pub fn output_ceiling_tokens(&self) -> (tokens: u32)
        ensures
            tokens == self.ceiling(),
    {
        self.output_ceiling_tokens
    }
}

/// Whether the bit pattern of a 32-bit float is of a finite positive number.
pub open spec fn usable_rate(rate: Option<u32>) -> bool {
    match rate {
        Some(bits) => 0 < bits < 0x7f80_0000,
        None => false,
    }
}

/// The ceiling in effect: the lower of the two, a configured zero meaning none.
pub open spec fn ceiling_in_effect(catalog: u32, configured: u32) -> u32 {
    if configured == 0 || catalog <= configured {
        catalog
    } else {
        configured
    }
}

/// The smallest output allowance of a thinking shape.
pub open spec fn smallest_allowance(adaptive: bool) -> u32 {
    if adaptive {
        ADAPTIVE_MIN_VIABLE_MAX_TOKENS
    } else {
        LEGACY_MIN_VIABLE_MAX_TOKENS
    }
}

/// Allowance and ceiling of a probe: there are some only where the catalog
/// confirms a ceiling and prices input and output, the provider speaks the
/// Anthropic API, and the ceiling in effect leaves room for the smallest
/// allowance.
pub open spec fn sizing(
    row: EffectiveRow,
    kind: Option<Seq<char>>,
    adaptive: bool,
    configured: u32,
) -> Option<(u32, u32)> {
    match (row, row.confirmed_ceiling()) {
        (EffectiveRow::Present(cell), Some(catalog)) => {
            let allowance = smallest_allowance(adaptive);
            let ceiling = ceiling_in_effect(catalog, configured);
            if usable_rate(cell.input_cost_per_token) && usable_rate(cell.output_cost_per_token)
                && kind == Some("anthropic-api"@) && allowance <= ceiling {
                Some((allowance, ceiling))
            } else {
                None
            }
        },
        _ => None,
    }
}

/// The lower of the two ceilings, a configured zero meaning none.
pub fn effective_output_ceiling(catalog_ceiling: u32, configured_ceiling: u32) -> (ceiling: u32)
    ensures
        ceiling == ceiling_in_effect(catalog_ceiling, configured_ceiling),
{
    if configured_ceiling == 0 || catalog_ceiling <= configured_ceiling {
        catalog_ceiling
    } else {
        configured_ceiling
    }
}

/// Whether a cell prices input and output.
pub fn prices_both_dimensions(row: &CatalogRow) -> (yes: bool)
    ensures
        yes == (usable_rate(row.input_cost_per_token) && usable_rate(row.output_cost_per_token)),
{
    is_usable_rate(row.input_cost_per_token) && is_usable_rate(row.output_cost_per_token)
}

/// Whether the bit pattern of a 32-bit float is of a finite positive number.
pub fn is_usable_rate(rate: Option<u32>) -> (yes: bool)
    ensures
        yes == usable_rate(rate),
{
    match rate {
        Some(bits) => 0 < bits && bits < 0x7f80_0000,
        None => false,
    }
}

impl<P, L> Router<P, L> {
    /// Allowance and ceiling of a paid probe of a lane.
    pub open spec fn lane_sizing(&self, state_key: Seq<char>) -> Option<(u32, u32)> {
        match sole_seat(self.resolved_models@, state_key) {
            Some(place) => {
                let (i, _) = place;
                let model = self.resolved_models@[i].1;
                sizing(
                    model.effective_row,
                    self.config.entry_kind(seat_provider(self.resolved_models@, place)),
                    model.supports_adaptive_thinking,
                    model.max_output_tokens,
                )
            },
            None => None,
        }
    }

    /// How a paid probe of the lane is sized, where it can be.
    pub fn paid_probe_profile(&self, key: &FieldVerdictKey) -> (profile: Option<PaidProbeProfile>)
        ensures
            match self.lane_sizing(key.state_key@) {
                Some((allowance, ceiling)) => profile is Some && profile->0.allowance()
                    == allowance && profile->0.ceiling() == ceiling,
                None => profile is None,
            },
    {
        let seat = match self.probe_seat_for(key) {
            Some(seat) => seat,
            None => {
                return None;
            },
        };
        let catalog_ceiling = match seat.effective_row.output_ceiling_tokens() {
            Some(ceiling) => ceiling,
            None => {
                return None;
            },
        };
        let row = match seat.effective_row.priced() {
            Some(row) => row,
            None => {
                return None;
            },
        };
        if !prices_both_dimensions(&row) {
            return None;
        }
        let speaks_anthropic: bool = match seat.provider_kind {
            Some(kind) => same_text(kind, "anthropic-api"),
            None => false,
        };
        if !speaks_anthropic {
            return None;
        }
        let max_tokens: u32 = if seat.supports_adaptive_thinking {
            ADAPTIVE_MIN_VIABLE_MAX_TOKENS
        } else {
            LEGACY_MIN_VIABLE_MAX_TOKENS
        };
        let output_ceiling_tokens = effective_output_ceiling(
            catalog_ceiling,
            seat.configured_output_ceiling,
        );
        if output_ceiling_tokens < max_tokens {
            return None;
        }
        Some(PaidProbeProfile { max_tokens, output_ceiling_tokens })
    }
}

} // verus!
