//! Laws of what is looked up in the configuration and of what a route opens
//! with.

use std::sync::Arc;

use vstd::prelude::*;

use crate::config::unset_policy;
use crate::config::Config;
use crate::config::RuntimePolicy;
use crate::opening_lookup::head_forwards;
use crate::opening_lookup::route_head;
use crate::opening_lookup::AliasResolution;
use crate::resolved::EffectiveRow;
use crate::resolved::ResolvedModel;

verus! {

// ---------------------------------------------------------------------------
// Entries
// ---------------------------------------------------------------------------

/// A provider entry decides for itself: its policy is its own in every knob,
/// its kind is its own, and it authenticates with the client's bearer exactly
/// if it has a base URL to forward to.
pub proof fn law_entry_decides(config: Config, name: Seq<char>)
    requires
        config.providers.map().dom().contains(name),
    ensures
        ({
            let entry = config.providers.map()[name];
            &&& config.policy_of(name).rpm_limit == entry.runtime.rpm_limit
            &&& config.policy_of(name).circuit_failures == entry.runtime.circuit_failures
            &&& config.entry_kind(name) == Some(entry.kind@)
            &&& config.kind_of(name) == entry.kind@
            &&& config.forwards(name) <==> entry.forwarded_base_url is Some
        }),
{
}

/// A name without a provider entry has no policy, no kind of its own, and
/// forwards nothing.
pub proof fn law_no_entry(config: Config, name: Seq<char>)
    requires
        !config.providers.map().dom().contains(name),
    ensures
        config.policy_of(name).rpm_limit is None,
        config.policy_of(name).circuit_failures is None,
        config.entry_kind(name) is None,
        !config.forwards(name),
{
}

/// The unset policy sets no knob.
pub proof fn law_unset_policy()
    ensures
        unset_policy() == (RuntimePolicy { rpm_limit: None, circuit_failures: None }),
{
}

/// A pool is of the kind of its lead member. One whose lead member has no
/// entry, one without members, and a name that is neither a provider nor a
/// pool, have no kind.
pub proof fn law_pool_kind(config: Config, name: Seq<char>)
    requires
        !config.providers.map().dom().contains(name),
    ensures
        ({
            let led = config.pools.map().dom().contains(name)
                && config.pools.map()[name].members@.len() > 0
                && config.providers.map().dom().contains(config.pools.map()[name].members@[0]@);
            &&& led ==> config.kind_of(name)
                == config.providers.map()[config.pools.map()[name].members@[0]@].kind@
            &&& !led ==> config.kind_of(name).len() == 0
        }),
{
}

/// A pool picks its seats in turn exactly if it is configured to.
pub proof fn law_rotation_configured(config: Config, pool: Seq<char>)
    ensures
        config.rotates(pool) ==> config.pools.map().dom().contains(pool),
        config.pools.map().dom().contains(pool) ==> (config.rotates(pool)
            <==> config.pools.map()[pool].seat_selection is RoundRobin),
{
}

// ---------------------------------------------------------------------------
// The head of a route
// ---------------------------------------------------------------------------

/// Whether `head` is what a chain opens with: its element zero, and nothing
/// where it is empty.
pub open spec fn opens_with<P>(
    chain: Seq<Arc<ResolvedModel<P>>>,
    head: Option<Arc<ResolvedModel<P>>>,
) -> bool {
    &&& chain.len() > 0 ==> head == Some(chain[0])
    &&& chain.len() == 0 ==> head is None
}

/// A route opens with the first target of its chain. The alias decides where
/// there is one; else the model of that nickname; else the default alias, by
/// the same rule.
pub proof fn law_route_opens_with_first<P>(
    models: Map<Seq<char>, Arc<ResolvedModel<P>>>,
    model: Seq<char>,
    alias: AliasResolution<P>,
    default_alias: AliasResolution<P>,
)
    ensures
        ({
            let head = route_head(models, model, alias, default_alias);
            let direct = models.dom().contains(model);
            &&& forall|chain: Vec<Arc<ResolvedModel<P>>>|
                alias == #[trigger] resolved_to(chain) ==> opens_with(chain@, head)
            &&& alias is Err ==> head is None
            &&& alias == no_alias::<P>() && direct ==> head == Some(models[model])
            &&& forall|chain: Vec<Arc<ResolvedModel<P>>>|
                alias == no_alias::<P>() && !direct && default_alias == #[trigger] resolved_to(chain)
                    ==> opens_with(chain@, head)
            &&& alias == no_alias::<P>() && !direct && (default_alias is Err || default_alias
                == no_alias::<P>()) ==> head is None
        }),
{
}

/// An alias that stands for this chain.
pub open spec fn resolved_to<P>(chain: Vec<Arc<ResolvedModel<P>>>) -> AliasResolution<P> {
    Ok(Some(chain))
}

/// A name that is no alias.
pub open spec fn no_alias<P>() -> AliasResolution<P> {
    Ok(None)
}

/// Whose credential a head uses: its provider's entry decides, and of a pooled
/// model the entries of all its seats do, where they agree. The client's bearer
/// is used by all of at least one seat, and no answer is given where one seat
/// forwards and another does not.
pub proof fn law_head_credential<P>(config: Config, head: ResolvedModel<P>)
    ensures
        ({
            let entries = config.providers.map();
            let answer = head_forwards(config, head);
            match head.seats {
                None => answer == Some(
                    entries.dom().contains(head.provider_name@)
                        && entries[head.provider_name@].forwarded_base_url is Some,
                ),
                Some(seats) => {
                    let forwards = |i: int|
                        entries.dom().contains(seats@[i].provider_name@)
                            && entries[seats@[i].provider_name@].forwarded_base_url is Some;
                    &&& answer == Some(false) <==> forall|i: int|
                        0 <= i < seats@.len() ==> !#[trigger] forwards(i)
                    &&& answer == Some(true) <==> seats@.len() > 0 && forall|i: int|
                        0 <= i < seats@.len() ==> #[trigger] forwards(i)
                    &&& answer is None <==> (exists|i: int|
                        0 <= i < seats@.len() && #[trigger] forwards(i)) && (exists|i: int|
                        0 <= i < seats@.len() && !#[trigger] forwards(i))
                },
            }
        }),
{
    if let Some(seats) = head.seats {
        let entries = config.providers.map();
        let forwards = |i: int|
            entries.dom().contains(seats@[i].provider_name@)
                && entries[seats@[i].provider_name@].forwarded_base_url is Some;
        assert forall|i: int| 0 <= i < seats@.len() implies #[trigger] forwards(i)
            == config.forwards((#[trigger] seats@[i]).provider_name@) by {}
        if seats@.len() > 0 {
            assert(forwards(0) == config.forwards(seats@[0].provider_name@));
        }
        let answer = head_forwards(config, head);
        if answer == Some(false) {
            assert forall|i: int| 0 <= i < seats@.len() implies !#[trigger] forwards(i) by {
                assert(!config.forwards(seats@[i].provider_name@));
            }
        }
        if answer == Some(true) {
            assert forall|i: int| 0 <= i < seats@.len() implies #[trigger] forwards(i) by {
                assert(config.forwards(seats@[i].provider_name@));
            }
        }
        if answer is None {
            let a = choose|i: int|
                0 <= i < seats@.len() && config.forwards((#[trigger] seats@[i]).provider_name@);
            let b = choose|i: int|
                0 <= i < seats@.len() && !config.forwards((#[trigger] seats@[i]).provider_name@);
            assert(forwards(a));
            assert(!forwards(b));
        }
    }
}

// ---------------------------------------------------------------------------
// Ceilings
// ---------------------------------------------------------------------------

/// A ceiling is confirmed exactly by a cell in force that states one above
/// zero, and it is the one stated.
pub proof fn law_confirmed_ceiling(row: EffectiveRow, tokens: u32)
    ensures
        row.confirmed_ceiling() == Some(tokens) <==> row is Present
            && row->Present_0.max_output_tokens == Some(tokens) && tokens > 0,
        row.confirmed_ceiling() is Some ==> row is Present,
{
}

} // verus!
