//! Laws of installing models and pool reports.

use std::sync::Arc;

use vstd::prelude::*;

use crate::config::Config;
use crate::config::ModelEntry;
use crate::config::RuntimePolicy;
use crate::install::ceiling_unset;
use crate::install::ceiling_views;
use crate::install::filled_ceilings;
use crate::install::model_slots;
use crate::install::quota_accounts;
use crate::install::seat_accounts;
use crate::install::seat_slots;
use crate::install::with_absent;
use crate::install::with_model_cursors;
use crate::install::with_model_providers;
use crate::install::with_omissions;
use crate::install::with_reports;
use crate::metrics::bumped_by;
use crate::metrics::PoolOmissionReason;
use crate::metrics::RouterMetrics;
use crate::resolved::composed_key;
use crate::resolved::ResolvedModel;
use crate::resolved::SeatTarget;
use crate::router::PoolOmission;
use crate::router::PoolReport;
use crate::router::StateSlot;
use crate::text::lemma_pushed;

verus! {

// ---------------------------------------------------------------------------
// Runtime gates and providers
// ---------------------------------------------------------------------------

/// Whether a gate is a fresh one for this key: made for a seat of one of the
/// models with the policy of the member's entry, or for a model itself with the
/// policy of its provider's entry.
pub open spec fn fresh_gate<P>(
    models: Seq<(Seq<char>, Arc<ResolvedModel<P>>)>,
    config: Config,
    serial: u64,
    key: Seq<char>,
    slot: StateSlot,
) -> bool {
    &&& slot.origin == serial
    &&& exists|i: int| 0 <= i < models.len() && #[trigger] gate_of(models[i], config, key, slot)
}

/// Whether a policy is that of the named provider entry in every knob, and sets
/// none where there is no such entry.
pub open spec fn runs_under(config: Config, name: Seq<char>, policy: RuntimePolicy) -> bool {
    &&& config.providers.map().dom().contains(name) ==> policy.rpm_limit
        == config.providers.map()[name].runtime.rpm_limit && policy.circuit_failures
        == config.providers.map()[name].runtime.circuit_failures
    &&& !config.providers.map().dom().contains(name) ==> policy.rpm_limit is None
        && policy.circuit_failures is None
}

/// Whether a gate is one of this model's, under this key: its own, under its
/// nickname, or that of one of its seats, under the nickname and the member.
pub open spec fn gate_of<P>(
    model: (Seq<char>, Arc<ResolvedModel<P>>),
    config: Config,
    key: Seq<char>,
    slot: StateSlot,
) -> bool {
    ||| key == model.0 && runs_under(config, model.1.provider_name@, slot.policy)
    ||| match model.1.seats {
        Some(seats) => exists|j: int|
            0 <= j < seats@.len() && key == model.0 + seq!['#'] + (
            #[trigger] seats@[j]).provider_name@ && runs_under(
                config,
                seats@[j].provider_name@,
                slot.policy,
            ),
        None => false,
    }
}

proof fn lemma_seat_slots<P>(
    state: Map<Seq<char>, StateSlot>,
    seats: Seq<SeatTarget<P>>,
    nickname: Seq<char>,
    config: Config,
    serial: u64,
)
    ensures
        ({
            let after = seat_slots(state, seats, nickname, config, serial);
            &&& forall|key: Seq<char>| #[trigger]
                state.dom().contains(key) ==> after.dom().contains(key) && after[key] == state[key]
            &&& forall|j: int|
                0 <= j < seats.len() ==> after.dom().contains(
                    composed_key(nickname, (#[trigger] seats[j]).provider_name@),
                )
            &&& forall|key: Seq<char>| #[trigger]
                after.dom().contains(key) && !state.dom().contains(key) ==> after[key].origin
                    == serial && exists|j: int|
                    0 <= j < seats.len() && key == composed_key(
                        nickname,
                        (#[trigger] seats[j]).provider_name@,
                    ) && after[key].policy == config.policy_of(seats[j].provider_name@)
        }),
    decreases seats.len(),
{
    if seats.len() > 0 {
        let shorter = seats.drop_last();
        lemma_seat_slots(state, shorter, nickname, config, serial);
        let before = seat_slots(state, shorter, nickname, config, serial);
        let after = seat_slots(state, seats, nickname, config, serial);
        let last = seats[seats.len() - 1];
        assert(seats.last() == last);
        assert forall|j: int| 0 <= j < seats.len() implies after.dom().contains(
            composed_key(nickname, (#[trigger] seats[j]).provider_name@),
        ) by {
            if j < shorter.len() {
                assert(shorter[j] == seats[j]);
            }
        }
        assert forall|key: Seq<char>| #[trigger]
            after.dom().contains(key) && !state.dom().contains(key) implies after[key].origin
            == serial && exists|j: int|
            0 <= j < seats.len() && key == composed_key(
                nickname,
                (#[trigger] seats[j]).provider_name@,
            ) && after[key].policy == config.policy_of(seats[j].provider_name@) by {
            if before.dom().contains(key) {
                let j = choose|j: int|
                    0 <= j < shorter.len() && key == composed_key(
                        nickname,
                        (#[trigger] shorter[j]).provider_name@,
                    ) && before[key].policy == config.policy_of(shorter[j].provider_name@);
                assert(seats[j] == shorter[j]);
            } else {
                assert(key == composed_key(nickname, last.provider_name@));
            }
        }
    }
}

/// Installing models gives each model and each of its seats a gate, leaves
/// every gate that there was alone, and makes the others afresh, each with the
/// policy of the entry that it gates.
pub proof fn law_install_gates<P>(
    state: Map<Seq<char>, StateSlot>,
    models: Seq<(Seq<char>, Arc<ResolvedModel<P>>)>,
    config: Config,
    serial: u64,
)
    ensures
        ({
            let after = model_slots(state, models, config, serial);
            &&& forall|key: Seq<char>| #[trigger]
                state.dom().contains(key) ==> after.dom().contains(key) && after[key] == state[key]
            &&& forall|i: int|
                0 <= i < models.len() ==> after.dom().contains((#[trigger] models[i]).0)
            &&& forall|i: int, j: int|
                0 <= i < models.len() && models[i].1.seats is Some && 0 <= j
                    < models[i].1.seats->0@.len() ==> after.dom().contains(
                    #[trigger] composed_key(models[i].0, models[i].1.seats->0@[j].provider_name@),
                )
            &&& forall|key: Seq<char>| #[trigger]
                after.dom().contains(key) && !state.dom().contains(key) ==> fresh_gate(
                    models,
                    config,
                    serial,
                    key,
                    after[key],
                )
        }),
    decreases models.len(),
{
    if models.len() > 0 {
        let shorter = models.drop_last();
        law_install_gates(state, shorter, config, serial);
        let before = model_slots(state, shorter, config, serial);
        let after = model_slots(state, models, config, serial);
        let n = models.len() - 1;
        let last = models[n];
        assert(models.last() == last);
        if let Some(seats) = last.1.seats {
            lemma_seat_slots(before, seats@, last.0, config, serial);
        }
        assert forall|i: int| 0 <= i < models.len() implies after.dom().contains(
            (#[trigger] models[i]).0,
        ) by {
            if i < n {
                assert(shorter[i] == models[i]);
            }
        }
        assert forall|i: int, j: int|
            0 <= i < models.len() && models[i].1.seats is Some && 0 <= j
                < models[i].1.seats->0@.len() implies after.dom().contains(
            #[trigger] composed_key(models[i].0, models[i].1.seats->0@[j].provider_name@),
        ) by {
            if i < n {
                assert(shorter[i] == models[i]);
                assert(before.dom().contains(
                    composed_key(shorter[i].0, shorter[i].1.seats->0@[j].provider_name@),
                ));
            }
        }
        assert forall|key: Seq<char>| #[trigger]
            after.dom().contains(key) && !state.dom().contains(key) implies fresh_gate(
            models,
            config,
            serial,
            key,
            after[key],
        ) by {
            if before.dom().contains(key) {
                let i = choose|i: int|
                    0 <= i < shorter.len() && #[trigger] gate_of(
                        shorter[i],
                        config,
                        key,
                        before[key],
                    );
                assert(gate_of(models[i], config, key, after[key]));
            } else {
                assert(gate_of(models[n], config, key, after[key]));
            }
        }
    }
}

/// Installing models never replaces a provider.
pub proof fn law_install_keeps_providers<P>(
    providers: Map<Seq<char>, Arc<P>>,
    models: Seq<(Seq<char>, Arc<ResolvedModel<P>>)>,
)
    ensures
        forall|name: Seq<char>| #[trigger]
            providers.dom().contains(name) ==> with_model_providers(
                providers,
                models,
            ).dom().contains(name) && with_model_providers(providers, models)[name]
                == providers[name],
        forall|i: int|
            0 <= i < models.len() ==> with_model_providers(providers, models).dom().contains(
                (#[trigger] models[i]).1.provider_name@,
            ),
    decreases models.len(),
{
    if models.len() > 0 {
        let shorter = models.drop_last();
        law_install_keeps_providers(providers, shorter);
        assert forall|i: int| 0 <= i < models.len() implies with_model_providers(
            providers,
            models,
        ).dom().contains((#[trigger] models[i]).1.provider_name@) by {
            if i < shorter.len() {
                assert(shorter[i] == models[i]);
            } else {
                assert(models.last() == models[i]);
            }
        }
    }
}

// ---------------------------------------------------------------------------
// Cursors
// ---------------------------------------------------------------------------

/// Whether one of the models is served by this pool.
pub open spec fn serves_pool<P>(
    models: Seq<(Seq<char>, Arc<ResolvedModel<P>>)>,
    pool: Seq<char>,
) -> bool {
    exists|i: int|
        0 <= i < models.len() && (#[trigger] models[i]).1.seats is Some
            && models[i].1.provider_name@ == pool
}

/// A cursor belongs to a pool and not to a model: after installing models, a
/// pool has a cursor exactly where it had one or where it picks its seats in
/// turn and serves a model. Those that there were go on; the others are fresh.
pub proof fn law_one_cursor_per_rotating_pool<P>(
    cursors: Map<Seq<char>, u64>,
    models: Seq<(Seq<char>, Arc<ResolvedModel<P>>)>,
    config: Config,
    serial: u64,
    pool: Seq<char>,
)
    ensures
        ({
            let after = with_model_cursors(cursors, models, config, serial);
            &&& after.dom().contains(pool) <==> cursors.dom().contains(pool) || (config.rotates(
                pool,
            ) && serves_pool(models, pool))
            &&& cursors.dom().contains(pool) ==> after[pool] == cursors[pool]
            &&& after.dom().contains(pool) && !cursors.dom().contains(pool) ==> after[pool]
                == serial
        }),
    decreases models.len(),
{
    if models.len() > 0 {
        let shorter = models.drop_last();
        law_one_cursor_per_rotating_pool(cursors, shorter, config, serial, pool);
        if serves_pool(shorter, pool) {
            let i = choose|i: int|
                0 <= i < shorter.len() && (#[trigger] shorter[i]).1.seats is Some
                    && shorter[i].1.provider_name@ == pool;
            assert(models[i] == shorter[i]);
        }
        if serves_pool(models, pool) && !serves_pool(shorter, pool) {
            let i = choose|i: int|
                0 <= i < models.len() && (#[trigger] models[i]).1.seats is Some
                    && models[i].1.provider_name@ == pool;
            if i < shorter.len() {
                assert(shorter[i] == models[i]);
            }
        }
        assert(models[models.len() - 1] == models.last());
    }
}

// ---------------------------------------------------------------------------
// Accounts
// ---------------------------------------------------------------------------

/// Whether one of the seats has this account key.
pub open spec fn seat_has_account<P>(seats: Seq<SeatTarget<P>>, key: Seq<char>) -> bool {
    exists|j: int|
        0 <= j < seats.len() && (#[trigger] seats[j]).quota_seat is Some
            && seats[j].quota_seat->0@ == key
}

/// Whether a model, or a seat of it, has this account key.
pub open spec fn model_has_account<P>(model: Arc<ResolvedModel<P>>, key: Seq<char>) -> bool {
    ||| model.quota_seat is Some && model.quota_seat->0@ == key
    ||| model.seats is Some && seat_has_account(model.seats->0@, key)
}

proof fn lemma_joined<A>(left: Seq<A>, right: Seq<A>, key: A)
    ensures
        (left + right).contains(key) <==> left.contains(key) || right.contains(key),
{
    if left.contains(key) {
        assert((left + right)[left.index_of(key)] == key);
    }
    if right.contains(key) {
        assert((left + right)[left.len() + right.index_of(key)] == key);
    }
    if (left + right).contains(key) {
        let i = (left + right).index_of(key);
        if i < left.len() {
            assert(left[i] == key);
        } else {
            assert(right[i - left.len()] == key);
        }
    }
}

proof fn lemma_seat_accounts<P>(seats: Seq<SeatTarget<P>>, key: Seq<char>)
    ensures
        seat_accounts(seats).contains(key) <==> seat_has_account(seats, key),
    decreases seats.len(),
{
    if seats.len() > 0 {
        let shorter = seats.drop_last();
        lemma_seat_accounts(shorter, key);
        if let Some(account) = seats.last().quota_seat {
            lemma_pushed(seat_accounts(shorter), account@, key);
        }
        if seat_has_account(shorter, key) {
            let j = choose|j: int|
                0 <= j < shorter.len() && (#[trigger] shorter[j]).quota_seat is Some
                    && shorter[j].quota_seat->0@ == key;
            assert(seats[j] == shorter[j]);
        }
        if seat_has_account(seats, key) && !seat_has_account(shorter, key) {
            let j = choose|j: int|
                0 <= j < seats.len() && (#[trigger] seats[j]).quota_seat is Some
                    && seats[j].quota_seat->0@ == key;
            if j < shorter.len() {
                assert(shorter[j] == seats[j]);
            }
        }
        assert(seats[seats.len() - 1] == seats.last());
    }
}

/// Quota may be reported for exactly the accounts that a model or a seat of a
/// model has: none is left out and none is added.
pub proof fn law_quota_accounts<P>(
    models: Seq<(Seq<char>, Arc<ResolvedModel<P>>)>,
    key: Seq<char>,
)
    ensures
        quota_accounts(models).contains(key) <==> exists|i: int|
            0 <= i < models.len() && #[trigger] model_has_account(models[i].1, key),
    decreases models.len(),
{
    if models.len() > 0 {
        let shorter = models.drop_last();
        let last = models.last().1;
        law_quota_accounts(shorter, key);
        let before = quota_accounts(shorter);
        let seated = match last.seats {
            Some(seats) => before + seat_accounts(seats@),
            None => before,
        };
        if let Some(seats) = last.seats {
            lemma_seat_accounts(seats@, key);
            lemma_joined(before, seat_accounts(seats@), key);
        }
        if let Some(account) = last.quota_seat {
            lemma_pushed(seated, account@, key);
        }
        assert(quota_accounts(models).contains(key) <==> before.contains(key)
            || model_has_account(last, key));
        if before.contains(key) {
            let i = choose|i: int|
                0 <= i < shorter.len() && #[trigger] model_has_account(shorter[i].1, key);
            assert(model_has_account(models[i].1, key));
        }
        if model_has_account(last, key) {
            assert(model_has_account(models[models.len() - 1].1, key));
        }
        if exists|i: int| 0 <= i < models.len() && #[trigger] model_has_account(models[i].1, key) {
            let i = choose|i: int|
                0 <= i < models.len() && #[trigger] model_has_account(models[i].1, key);
            if i < shorter.len() {
                assert(model_has_account(shorter[i].1, key));
            }
        }
    }
}

// ---------------------------------------------------------------------------
// Ceilings
// ---------------------------------------------------------------------------

/// The catalog fills a ceiling exactly where it confirms one and the
/// configuration sets none: a configured ceiling always stands.
pub proof fn law_catalog_fills_open_ceilings<P>(
    models: Seq<(Seq<char>, Arc<ResolvedModel<P>>)>,
    config: Config,
    nickname: Seq<char>,
    ceiling: u32,
)
    ensures
        filled_ceilings(models, config).contains((nickname, ceiling)) <==> ceiling_unset(
            config.models.map(),
            nickname,
        ) && exists|i: int|
            0 <= i < models.len() && (#[trigger] models[i]).0 == nickname
                && models[i].1.effective_row.confirmed_ceiling() == Some(ceiling),
        filled_ceilings(models, config).contains((nickname, ceiling)) ==> ceiling > 0,
    decreases models.len(),
{
    if models.len() > 0 {
        let shorter = models.drop_last();
        law_catalog_fills_open_ceilings(shorter, config, nickname, ceiling);
        let before = filled_ceilings(shorter, config);
        if let Some(confirmed) = models.last().1.effective_row.confirmed_ceiling() {
            lemma_pushed(before, (models.last().0, confirmed), (nickname, ceiling));
        }
        if before.contains((nickname, ceiling)) {
            let i = choose|i: int|
                0 <= i < shorter.len() && (#[trigger] shorter[i]).0 == nickname
                    && shorter[i].1.effective_row.confirmed_ceiling() == Some(ceiling);
            assert(models[i] == shorter[i]);
        }
        if exists|i: int|
            0 <= i < models.len() && (#[trigger] models[i]).0 == nickname
                && models[i].1.effective_row.confirmed_ceiling() == Some(ceiling) {
            let i = choose|i: int|
                0 <= i < models.len() && (#[trigger] models[i]).0 == nickname
                    && models[i].1.effective_row.confirmed_ceiling() == Some(ceiling);
            if i < shorter.len() {
                assert(shorter[i] == models[i]);
            }
        }
        assert(models[models.len() - 1] == models.last());
    }
}

// ---------------------------------------------------------------------------
// Pool reports
// ---------------------------------------------------------------------------

/// The counter of the members omitted for this reason.
pub open spec fn omitted_for(metrics: RouterMetrics, reason: PoolOmissionReason) -> u64 {
    match reason {
        PoolOmissionReason::CredentialMissing => {
            metrics.pool_member_omitted_credential_missing_total
        },
        PoolOmissionReason::CredentialUnreadable => {
            metrics.pool_member_omitted_credential_unreadable_total
        },
        PoolOmissionReason::CredentialInvalid => {
            metrics.pool_member_omitted_credential_invalid_total
        },
        PoolOmissionReason::ProviderInitFailed => {
            metrics.pool_member_omitted_provider_init_failed_total
        },
    }
}

/// How many of the omissions are for this reason.
pub open spec fn omissions_for(omissions: Seq<PoolOmission>, reason: PoolOmissionReason) -> nat
    decreases omissions.len(),
{
    if omissions.len() == 0 {
        0
    } else {
        omissions_for(omissions.drop_last(), reason) + (if omissions.last().reason == reason {
            1nat
        } else {
            0
        })
    }
}

/// How many of the omissions of all reports are for this reason.
pub open spec fn reported_for(reports: Seq<PoolReport>, reason: PoolOmissionReason) -> nat
    decreases reports.len(),
{
    if reports.len() == 0 {
        0
    } else {
        reported_for(reports.drop_last(), reason) + omissions_for(
            reports.last().omissions@,
            reason,
        )
    }
}

proof fn lemma_bumped_further(count: u64, n: nat, m: nat)
    ensures
        bumped_by(bumped_by(count, n), m) == bumped_by(count, n + m),
    decreases m,
{
    if m > 0 {
        lemma_bumped_further(count, n, (m - 1) as nat);
        assert((n + m - 1) as nat == n + (m - 1) as nat);
    }
}

proof fn lemma_omissions_counted(
    metrics: RouterMetrics,
    omissions: Seq<PoolOmission>,
    reason: PoolOmissionReason,
)
    ensures
        omitted_for(with_omissions(metrics, omissions), reason) == bumped_by(
            omitted_for(metrics, reason),
            omissions_for(omissions, reason),
        ),
    decreases omissions.len(),
{
    if omissions.len() > 0 {
        lemma_omissions_counted(metrics, omissions.drop_last(), reason);
    }
}

/// Every omitted member is counted once, under its own reason.
pub proof fn law_omissions_counted(
    metrics: RouterMetrics,
    reports: Seq<PoolReport>,
    reason: PoolOmissionReason,
)
    ensures
        omitted_for(with_reports(metrics, reports), reason) == bumped_by(
            omitted_for(metrics, reason),
            reported_for(reports, reason),
        ),
    decreases reports.len(),
{
    if reports.len() > 0 {
        let shorter = reports.drop_last();
        law_omissions_counted(metrics, shorter, reason);
        lemma_omissions_counted(
            with_reports(metrics, shorter),
            reports.last().omissions@,
            reason,
        );
        lemma_bumped_further(
            omitted_for(metrics, reason),
            reported_for(shorter, reason),
            omissions_for(reports.last().omissions@, reason),
        );
    }
}

// ---------------------------------------------------------------------------
// One gate, one provider, one account at a time
// ---------------------------------------------------------------------------

/// The state key of a seat is the nickname, a hash sign and the member.
pub proof fn law_seat_key(nickname: Seq<char>, member: Seq<char>)
    ensures
        composed_key(nickname, member).len() == nickname.len() + 1 + member.len(),
        composed_key(nickname, member).take(nickname.len() as int) == nickname,
        composed_key(nickname, member)[nickname.len() as int] == '#',
        composed_key(nickname, member).skip(nickname.len() as int + 1) == member,
{
    assert(composed_key(nickname, member).take(nickname.len() as int) =~= nickname);
    assert(composed_key(nickname, member).skip(nickname.len() as int + 1) =~= member);
}

/// What stands under a name stays, and a new name takes its value; no other
/// name is touched.
pub proof fn law_first_stays<V>(
    table: Map<Seq<char>, V>,
    name: Seq<char>,
    value: V,
    other: Seq<char>,
)
    ensures
        ({
            let after = with_absent(table, name, value);
            &&& after.dom().contains(name)
            &&& table.dom().contains(name) ==> after[name] == table[name]
            &&& !table.dom().contains(name) ==> after[name] == value
            &&& other != name ==> (after.dom().contains(other) <==> table.dom().contains(other))
            &&& other != name && table.dom().contains(other) ==> after[other] == table[other]
        }),
{
}

/// A model's fresh gate is under the policy of its provider's entry, in every
/// knob, unless a seat goes by the same key.
pub proof fn law_model_gate<P>(
    state: Map<Seq<char>, StateSlot>,
    models: Seq<(Seq<char>, Arc<ResolvedModel<P>>)>,
    config: Config,
    serial: u64,
    i: int,
)
    requires
        0 <= i < models.len(),
        !state.dom().contains(models[i].0),
        forall|a: int| 0 <= a < models.len() && a != i ==> (#[trigger] models[a]).0 != models[i].0,
        forall|a: int, b: int|
            0 <= a < models.len() && models[a].1.seats is Some && 0 <= b
                < models[a].1.seats->0@.len() ==> models[a].0 + seq!['#'] + (
            #[trigger] models[a].1.seats->0@[b]).provider_name@ != models[i].0,
    ensures
        ({
            let after = model_slots(state, models, config, serial);
            &&& after.dom().contains(models[i].0)
            &&& after[models[i].0].origin == serial
            &&& runs_under(config, models[i].1.provider_name@, after[models[i].0].policy)
        }),
{
    law_install_gates(state, models, config, serial);
    let after = model_slots(state, models, config, serial);
    let key = models[i].0;
    assert(after.dom().contains(key));
    assert(fresh_gate(models, config, serial, key, after[key]));
    let a = choose|a: int|
        0 <= a < models.len() && #[trigger] gate_of(models[a], config, key, after[key]);
    if !(key == models[a].0 && runs_under(config, models[a].1.provider_name@, after[key].policy)) {
        let seats = models[a].1.seats->0;
        let b = choose|b: int|
            0 <= b < seats@.len() && key == models[a].0 + seq!['#'] + (
            #[trigger] seats@[b]).provider_name@ && runs_under(
                config,
                seats@[b].provider_name@,
                after[key].policy,
            );
        assert(models[a].1.seats->0@[b].provider_name@ == seats@[b].provider_name@);
    }
}

/// A seat's fresh gate is under the policy of the member's own entry, in every
/// knob, where its key stands for that member only.
pub proof fn law_seat_gate<P>(
    state: Map<Seq<char>, StateSlot>,
    models: Seq<(Seq<char>, Arc<ResolvedModel<P>>)>,
    config: Config,
    serial: u64,
    i: int,
    j: int,
)
    requires
        0 <= i < models.len(),
        models[i].1.seats is Some,
        0 <= j < models[i].1.seats->0@.len(),
        ({
            let member = models[i].1.seats->0@[j].provider_name@;
            let key = models[i].0 + seq!['#'] + member;
            &&& !state.dom().contains(key)
            &&& forall|a: int| 0 <= a < models.len() ==> (#[trigger] models[a]).0 != key
            &&& forall|a: int, b: int|
                0 <= a < models.len() && models[a].1.seats is Some && 0 <= b
                    < models[a].1.seats->0@.len() && models[a].0 + seq!['#'] + (
                #[trigger] models[a].1.seats->0@[b]).provider_name@ == key
                    ==> models[a].1.seats->0@[b].provider_name@ == member
        }),
    ensures
        ({
            let member = models[i].1.seats->0@[j].provider_name@;
            let key = models[i].0 + seq!['#'] + member;
            let after = model_slots(state, models, config, serial);
            &&& after.dom().contains(key)
            &&& after[key].origin == serial
            &&& runs_under(config, member, after[key].policy)
        }),
{
    law_install_gates(state, models, config, serial);
    let after = model_slots(state, models, config, serial);
    let member = models[i].1.seats->0@[j].provider_name@;
    let key = models[i].0 + seq!['#'] + member;
    assert(key == composed_key(models[i].0, models[i].1.seats->0@[j].provider_name@));
    assert(after.dom().contains(key));
    assert(fresh_gate(models, config, serial, key, after[key]));
    let a = choose|a: int|
        0 <= a < models.len() && #[trigger] gate_of(models[a], config, key, after[key]);
    let seats = models[a].1.seats->0;
    let b = choose|b: int|
        0 <= b < seats@.len() && key == models[a].0 + seq!['#'] + (
        #[trigger] seats@[b]).provider_name@ && runs_under(
            config,
            seats@[b].provider_name@,
            after[key].policy,
        );
    assert(models[a].1.seats->0@[b].provider_name@ == seats@[b].provider_name@);
}

/// Of several models with one provider name the first brings the provider in,
/// and no other name is added.
pub proof fn law_first_provider_of_a_name<P>(
    providers: Map<Seq<char>, Arc<P>>,
    models: Seq<(Seq<char>, Arc<ResolvedModel<P>>)>,
    name: Seq<char>,
    i: int,
)
    ensures
        ({
            let after = with_model_providers(providers, models);
            &&& providers.dom().contains(name) ==> after.dom().contains(name) && after[name]
                == providers[name]
            &&& !providers.dom().contains(name) && 0 <= i < models.len()
                && models[i].1.provider_name@ == name && (forall|k: int|
                0 <= k < i ==> (#[trigger] models[k]).1.provider_name@ != name)
                ==> after.dom().contains(name) && after[name] == models[i].1.provider
            &&& !providers.dom().contains(name) && (forall|k: int|
                0 <= k < models.len() ==> (#[trigger] models[k]).1.provider_name@ != name)
                ==> !after.dom().contains(name)
        }),
    decreases models.len(),
{
    if models.len() > 0 {
        let shorter = models.drop_last();
        let n = models.len() - 1;
        law_first_provider_of_a_name(providers, shorter, name, i);
        assert(models.last() == models[n]);
        assert forall|k: int| 0 <= k < n implies (#[trigger] shorter[k]) == models[k] by {}
        if i == n && forall|k: int| 0 <= k < i ==> (#[trigger] models[k]).1.provider_name@ != name {
            assert forall|k: int| 0 <= k < n implies (
            #[trigger] shorter[k]).1.provider_name@ != name by {
                assert(models[k].1.provider_name@ != name);
            }
        }
        if forall|k: int| 0 <= k < models.len() ==> (
        #[trigger] models[k]).1.provider_name@ != name {
            assert forall|k: int| 0 <= k < n implies (
            #[trigger] shorter[k]).1.provider_name@ != name by {
                assert(models[k].1.provider_name@ != name);
            }
            assert(models[n].1.provider_name@ != name);
        }
        if 0 <= i < n && forall|k: int|
            0 <= k < i ==> (#[trigger] models[k]).1.provider_name@ != name {
            assert forall|k: int| 0 <= k < i implies (
            #[trigger] shorter[k]).1.provider_name@ != name by {
                assert(models[k].1.provider_name@ != name);
            }
        }
    }
}

/// One more seat adds its account key behind the others, where it has one.
pub proof fn law_seat_accounts_in_order<P>(seats: Seq<SeatTarget<P>>, seat: SeatTarget<P>)
    ensures
        seat_accounts(Seq::<SeatTarget<P>>::empty()) == Seq::<Seq<char>>::empty(),
        seat.quota_seat is Some ==> seat_accounts(seats.push(seat)) == seat_accounts(seats).push(
            seat.quota_seat->0@,
        ),
        seat.quota_seat is None ==> seat_accounts(seats.push(seat)) == seat_accounts(seats),
{
    assert(seats.push(seat).drop_last() =~= seats);
}

/// One more model adds the account keys of its seats behind the others, and
/// then its own.
pub proof fn law_accounts_in_order<P>(
    models: Seq<(Seq<char>, Arc<ResolvedModel<P>>)>,
    model: (Seq<char>, Arc<ResolvedModel<P>>),
)
    ensures
        ({
            let before = quota_accounts(models);
            let seated = if model.1.seats is Some {
                before + seat_accounts(model.1.seats->0@)
            } else {
                before
            };
            &&& quota_accounts(Seq::<(Seq<char>, Arc<ResolvedModel<P>>)>::empty()).len() == 0
            &&& model.1.quota_seat is Some ==> quota_accounts(models.push(model)) == seated.push(
                model.1.quota_seat->0@,
            )
            &&& model.1.quota_seat is None ==> quota_accounts(models.push(model)) == seated
        }),
{
    assert(models.push(model).drop_last() =~= models);
}

/// A model's configuration leaves its ceiling open exactly if it states none
/// above zero.
pub proof fn law_ceiling_open(models: Map<Seq<char>, ModelEntry>, nickname: Seq<char>)
    ensures
        ceiling_unset(models, nickname) <==> !(models.dom().contains(nickname)
            && models[nickname].max_output_tokens is Some && models[nickname].max_output_tokens->0
            > 0),
{
}

/// One more model adds its nickname and ceiling behind the others, exactly
/// where its configuration leaves the ceiling open and its cell is in force and
/// states one above zero.
pub proof fn law_ceilings_in_order<P>(
    models: Seq<(Seq<char>, Arc<ResolvedModel<P>>)>,
    model: (Seq<char>, Arc<ResolvedModel<P>>),
    config: Config,
)
    ensures
        ({
            let before = filled_ceilings(models, config);
            let after = filled_ceilings(models.push(model), config);
            let row = model.1.effective_row;
            let stated = row is Present && row->Present_0.max_output_tokens is Some
                && row->Present_0.max_output_tokens->0 > 0;
            let entries = config.models.map();
            let open = !(entries.dom().contains(model.0) && entries[model.0].max_output_tokens
                is Some && entries[model.0].max_output_tokens->0 > 0);
            &&& filled_ceilings(Seq::<(Seq<char>, Arc<ResolvedModel<P>>)>::empty(), config).len()
                == 0
            &&& stated && open ==> after == before.push(
                (model.0, row->Present_0.max_output_tokens->0),
            )
            &&& !(stated && open) ==> after == before
        }),
{
    assert(models.push(model).drop_last() =~= models);
}

/// Reports are counted one after the other and omission by omission, each under
/// its own reason; no other counter moves.
pub proof fn law_reports_counted_in_turn(
    metrics: RouterMetrics,
    reports: Seq<PoolReport>,
    report: PoolReport,
    omissions: Seq<PoolOmission>,
    omission: PoolOmission,
)
    ensures
        with_reports(metrics, Seq::empty()) == metrics,
        with_reports(metrics, reports.push(report)) == with_omissions(
            with_reports(metrics, reports),
            report.omissions@,
        ),
        with_omissions(metrics, Seq::empty()) == metrics,
        with_omissions(metrics, omissions.push(omission)) == with_omissions(
            metrics,
            omissions,
        ).with_omission(omission.reason),
{
    assert(reports.push(report).drop_last() =~= reports);
    assert(omissions.push(omission).drop_last() =~= omissions);
}

/// What a list of ceilings is read as: nickname and ceiling, place by place.
pub proof fn law_ceilings_read(list: Seq<(String, u32)>, i: int)
    ensures
        ceiling_views(list).len() == list.len(),
        0 <= i < list.len() ==> ceiling_views(list)[i] == (list[i].0@, list[i].1),
{
}

} // verus!
