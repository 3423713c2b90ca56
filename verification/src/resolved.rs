//! Models resolved against the configuration and the catalog.

use std::sync::Arc;

use vstd::prelude::*;

use crate::json::Json;
use crate::names::NameTable;

verus! {

/// One catalog cell. A rate is held as the bit pattern of its 32-bit float.
#[derive(Clone, Copy, PartialEq, Eq, Structural, Debug)]
pub struct CatalogRow {
    /// Price of one input token.
    pub input_cost_per_token: Option<u32>,
    /// Price of one output token.
    pub output_cost_per_token: Option<u32>,
    /// The output ceiling that the catalog states.
    pub max_output_tokens: Option<u32>,
}

impl CatalogRow {
    /// A cell that states nothing.
    pub fn sentinel() -> (out: CatalogRow)
        ensures
            out.input_cost_per_token is None,
            out.output_cost_per_token is None,
            out.max_output_tokens is None,
    {
        CatalogRow {
            input_cost_per_token: None,
            output_cost_per_token: None,
            max_output_tokens: None,
        }
    }
}

/// What the catalog says of a model after the overlay.
#[derive(Clone, Copy, PartialEq, Eq, Structural, Debug)]
pub enum EffectiveRow {
    /// A cell in force.
    Present(CatalogRow),
    /// A cell that the overlay switched off.
    Disabled,
    /// No cell.
    Missing,
}

impl EffectiveRow {
    /// The output ceiling that a cell in force confirms. Zero confirms nothing.
    pub open spec fn confirmed_ceiling(self) -> Option<u32> {
        match self {
            EffectiveRow::Present(row) => match row.max_output_tokens {
                Some(tokens) => if tokens == 0 {
                    None
                } else {
                    Some(tokens)
                },
                None => None,
            },
            _ => None,
        }
    }

    /// The output ceiling that a cell in force confirms.
    pub fn output_ceiling_tokens(&self) -> (ceiling: Option<u32>)
        ensures
            ceiling == self.confirmed_ceiling(),
    {
        match self {
            EffectiveRow::Present(row) => match row.max_output_tokens {
                Some(tokens) => if tokens == 0 {
                    None
                } else {
                    Some(tokens)
                },
                None => None,
            },
            _ => None,
        }
    }

    /// The cell in force.
    pub fn priced(&self) -> (row: Option<CatalogRow>)
        ensures
            row == (match *self {
                EffectiveRow::Present(cell) => Some(cell),
                _ => None,
            }),
    {
        match self {
            EffectiveRow::Present(row) => Some(*row),
            _ => None,
        }
    }
}

/// One account of a pool, as a seat that a model can be served from.
pub struct SeatTarget<P> {
    /// The member's `[providers]` key.
    pub provider_name: String,
    /// The member's provider.
    pub provider: Arc<P>,
    /// The account key of the member's credential, where quota is reported
    /// for it.
    pub quota_seat: Option<String>,
}

/// A model resolved against its provider or pool.
pub struct ResolvedModel<P> {
    /// The `[models]` key.
    pub nickname: String,
    /// The `[providers]` key, or the pool's name for a pooled model.
    pub provider_name: String,
    /// The provider, the lead member's for a pooled model.
    pub provider: Arc<P>,
    /// The model id on the wire.
    pub upstream: String,
    /// The usable seats in declared order, for a pooled model.
    pub seats: Option<Vec<SeatTarget<P>>>,
    /// Headers that this model adds.
    pub header_extras: NameTable<String>,
    /// Payload that this model adds.
    pub payload_extras: Option<Json>,
    /// What the catalog says of the model.
    pub effective_row: EffectiveRow,
    /// Whether the model takes the adaptive thinking shape.
    pub supports_adaptive_thinking: bool,
    /// The configured output ceiling; zero means none.
    pub max_output_tokens: u32,
    /// The account key of the model's own credential, where quota is reported
    /// for it.
    pub quota_seat: Option<String>,
}

/// The state key of a pool member serving a model.
pub open spec fn composed_key(nickname: Seq<char>, member: Seq<char>) -> Seq<char> {
    nickname + seq!['#'] + member
}

/// The state key of a pool member serving a model.
pub fn seat_state_key(nickname: &str, member: &str) -> (key: String)
    ensures
        key@ == composed_key(nickname@, member@),
{
    let mut key: String = nickname.to_owned();
    proof {
        reveal_strlit("#");
    }
    key.append("#");
    key.append(member);
    assert("#"@ =~= seq!['#']);
    key
}

impl<P> SeatTarget<P> {
    /// The state key of this seat serving `nickname`.
    pub fn state_key_for(&self, nickname: &str) -> (key: String)
        ensures
            key@ == composed_key(nickname@, self.provider_name@),
    {
        seat_state_key(nickname, self.provider_name.as_str())
    }
}

impl<P> ResolvedModel<P> {
    /// A model served straight from one provider, with nothing configured
    /// beyond it.
    pub fn direct(nickname: &str, provider_name: &str, provider: Arc<P>, upstream: &str) -> (out:
        ResolvedModel<P>)
        ensures
            out.nickname@ == nickname@,
            out.provider_name@ == provider_name@,
            out.provider == provider,
            out.upstream@ == upstream@,
            out.seats is None,
            out.header_extras@.len() == 0,
            out.payload_extras is None,
            out.effective_row == EffectiveRow::Missing,
            !out.supports_adaptive_thinking,
            out.max_output_tokens == 0,
            out.quota_seat is None,
    {
        ResolvedModel {
            nickname: nickname.to_owned(),
            provider_name: provider_name.to_owned(),
            provider,
            upstream: upstream.to_owned(),
            seats: None,
            header_extras: NameTable::new(),
            payload_extras: None,
            effective_row: EffectiveRow::Missing,
            supports_adaptive_thinking: false,
            max_output_tokens: 0,
            quota_seat: None,
        }
    }

    /// The name under which a pooled model's rotation is kept: the pool's.
    pub fn rotation_key(&self) -> (key: &str)
        ensures
            key@ == self.provider_name@,
    {
        self.provider_name.as_str()
    }

    /// The output ceiling that the catalog confirms for the model.
    pub fn output_ceiling_tokens(&self) -> (ceiling: Option<u32>)
        ensures
            ceiling == self.effective_row.confirmed_ceiling(),
    {
        self.effective_row.output_ceiling_tokens()
    }
}

} // verus!
