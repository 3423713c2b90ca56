//! Installing resolved models, providers, overlays and pool reports.

use std::sync::Arc;

use vstd::prelude::*;

use crate::config::unset_policy;
use crate::config::Config;
use crate::config::ModelEntry;
use crate::config::RuntimePolicy;
use crate::metrics::bumped;
use crate::metrics::RouterMetrics;
use crate::names::NameTable;
use crate::resolved::composed_key;
use crate::resolved::ResolvedModel;
use crate::resolved::SeatTarget;
use crate::router::CatalogOverlay;
use crate::router::PoolOmission;
use crate::router::PoolReport;
use crate::router::Router;
use crate::router::StateSlot;
use crate::text::texts;

verus! {

/// A table with `value` under `name` where nothing stood there yet.
pub open spec fn with_absent<V>(table: Map<Seq<char>, V>, name: Seq<char>, value: V) -> Map<
    Seq<char>,
    V,
> {
    if table.dom().contains(name) {
        table
    } else {
        table.insert(name, value)
    }
}

/// The gates after those of a pooled model's seats were made: one per seat,
/// with the policy of the member's own entry.
pub open spec fn seat_slots<P>(
    state: Map<Seq<char>, StateSlot>,
    seats: Seq<SeatTarget<P>>,
    nickname: Seq<char>,
    config: Config,
    serial: u64,
) -> Map<Seq<char>, StateSlot>
    decreases seats.len(),
{
    if seats.len() == 0 {
        state
    } else {
        let member = seats.last().provider_name@;
        with_absent(
            seat_slots(state, seats.drop_last(), nickname, config, serial),
            composed_key(nickname, member),
            StateSlot { origin: serial, policy: config.policy_of(member) },
        )
    }
}

/// The gates after those of the models were made, in the order of the
/// nicknames: for each the gates of its seats, then its own, with the policy
/// of its provider's entry.
pub open spec fn model_slots<P>(
    state: Map<Seq<char>, StateSlot>,
    models: Seq<(Seq<char>, Arc<ResolvedModel<P>>)>,
    config: Config,
    serial: u64,
) -> Map<Seq<char>, StateSlot>
    decreases models.len(),
{
    if models.len() == 0 {
        state
    } else {
        let before = model_slots(state, models.drop_last(), config, serial);
        let nickname = models.last().0;
        let model = models.last().1;
        let seated = match model.seats {
            Some(seats) => seat_slots(before, seats@, nickname, config, serial),
            None => before,
        };
        with_absent(
            seated,
            nickname,
            StateSlot { origin: serial, policy: config.policy_of(model.provider_name@) },
        )
    }
}

/// The providers after those of the models were added, the first of a name
/// staying.
pub open spec fn with_model_providers<P>(
    providers: Map<Seq<char>, Arc<P>>,
    models: Seq<(Seq<char>, Arc<ResolvedModel<P>>)>,
) -> Map<Seq<char>, Arc<P>>
    decreases models.len(),
{
    if models.len() == 0 {
        providers
    } else {
        let model = models.last().1;
        with_absent(
            with_model_providers(providers, models.drop_last()),
            model.provider_name@,
            model.provider,
        )
    }
}

/// The rotation cursors after those of the pooled models were made: one per
/// pool that picks its seats in turn.
pub open spec fn with_model_cursors<P>(
    cursors: Map<Seq<char>, u64>,
    models: Seq<(Seq<char>, Arc<ResolvedModel<P>>)>,
    config: Config,
    serial: u64,
) -> Map<Seq<char>, u64>
    decreases models.len(),
{
    if models.len() == 0 {
        cursors
    } else {
        let before = with_model_cursors(cursors, models.drop_last(), config, serial);
        let model = models.last().1;
        if model.seats is Some && config.rotates(model.provider_name@) {
            with_absent(before, model.provider_name@, serial)
        } else {
            before
        }
    }
}

/// `keys` with the account key of a credential appended, where it has one.
pub open spec fn with_account(keys: Seq<Seq<char>>, account: Option<String>) -> Seq<Seq<char>> {
    match account {
        Some(key) => keys.push(key@),
        None => keys,
    }
}

/// The account keys of some seats, in order.
pub open spec fn seat_accounts<P>(seats: Seq<SeatTarget<P>>) -> Seq<Seq<char>>
    decreases seats.len(),
{
    if seats.len() == 0 {
        Seq::empty()
    } else {
        with_account(seat_accounts(seats.drop_last()), seats.last().quota_seat)
    }
}

/// The account keys that quota may be reported for: of each model in order,
/// those of its seats and then its own.
pub open spec fn quota_accounts<P>(models: Seq<(Seq<char>, Arc<ResolvedModel<P>>)>) -> Seq<
    Seq<char>,
>
    decreases models.len(),
{
    if models.len() == 0 {
        Seq::empty()
    } else {
        let before = quota_accounts(models.drop_last());
        let model = models.last().1;
        let seated = match model.seats {
            Some(seats) => before + seat_accounts(seats@),
            None => before,
        };
        with_account(seated, model.quota_seat)
    }
}

/// Whether a model's configuration sets no output ceiling.
pub open spec fn ceiling_unset(models: Map<Seq<char>, ModelEntry>, nickname: Seq<char>) -> bool {
    !models.dom().contains(nickname) || (match models[nickname].max_output_tokens {
        Some(tokens) => tokens == 0,
        None => true,
    })
}

/// The models whose output ceiling the catalog fills, with the ceiling, in the
/// order of the nicknames.
pub open spec fn filled_ceilings<P>(
    models: Seq<(Seq<char>, Arc<ResolvedModel<P>>)>,
    config: Config,
) -> Seq<(Seq<char>, u32)>
    decreases models.len(),
{
    if models.len() == 0 {
        Seq::empty()
    } else {
        let before = filled_ceilings(models.drop_last(), config);
        let nickname = models.last().0;
        match models.last().1.effective_row.confirmed_ceiling() {
            Some(ceiling) => if ceiling_unset(config.models.map(), nickname) {
                before.push((nickname, ceiling))
            } else {
                before
            },
            None => before,
        }
    }
}

/// The counters after the omissions of one pool were counted.
pub open spec fn with_omissions(metrics: RouterMetrics, omissions: Seq<PoolOmission>) -> RouterMetrics
    decreases omissions.len(),
{
    if omissions.len() == 0 {
        metrics
    } else {
        with_omissions(metrics, omissions.drop_last()).with_omission(omissions.last().reason)
    }
}

/// The counters after the omissions of every report were counted.
pub open spec fn with_reports(metrics: RouterMetrics, reports: Seq<PoolReport>) -> RouterMetrics
    decreases reports.len(),
{
    if reports.len() == 0 {
        metrics
    } else {
        with_omissions(with_reports(metrics, reports.drop_last()), reports.last().omissions@)
    }
}

/// What is held of a list of ceilings.
pub open spec fn ceiling_views(list: Seq<(String, u32)>) -> Seq<(Seq<char>, u32)> {
    list.map_values(|e: (String, u32)| (e.0@, e.1))
}

fn push_account(keys: &mut Vec<String>, account: &Option<String>)
    ensures
        texts(final(keys)@) == with_account(texts(old(keys)@), *account),
{
    if let Some(key) = account {
        let ghost before = texts(keys@);
        keys.push(key.clone());
        assert(texts(keys@) =~= before.push(key@));
    }
}

fn push_seat_accounts<P>(keys: &mut Vec<String>, seats: &Vec<SeatTarget<P>>)
    ensures
        texts(final(keys)@) == texts(old(keys)@) + seat_accounts(seats@),
{
    let ghost before = texts(keys@);
    let mut i: usize = 0;
    assert(seats@.take(0) =~= Seq::<SeatTarget<P>>::empty());
    assert(texts(keys@) =~= before + seat_accounts(seats@.take(0)));
    while i < seats.len()
        invariant
            i <= seats.len(),
            texts(keys@) == before + seat_accounts(seats@.take(i as int)),
        decreases seats.len() - i,
    {
        assert(seats@.take(i as int + 1).drop_last() =~= seats@.take(i as int));
        push_account(keys, &seats[i].quota_seat);
        assert(texts(keys@) =~= before + seat_accounts(seats@.take(i as int + 1)));
        i = i + 1;
    }
    assert(seats@.take(i as int) =~= seats@);
}

fn insert_seat_slots<P>(
    state: &mut NameTable<StateSlot>,
    seats: &Vec<SeatTarget<P>>,
    nickname: &str,
    config: &Config,
    serial: u64,
)
    ensures
        final(state).map() == seat_slots(
            old(state).map(),
            seats@,
            nickname@,
            *config,
            serial,
        ),
{
    let ghost before = state.map();
    let mut i: usize = 0;
    assert(seats@.take(0) =~= Seq::<SeatTarget<P>>::empty());
    while i < seats.len()
        invariant
            i <= seats.len(),
            state.map() == seat_slots(
                before,
                seats@.take(i as int),
                nickname@,
                *config,
                serial,
            ),
        decreases seats.len() - i,
    {
        assert(seats@.take(i as int + 1).drop_last() =~= seats@.take(i as int));
        let seat = &seats[i];
        let policy = config.runtime_policy(seat.provider_name.as_str());
        state.insert_if_absent(seat.state_key_for(nickname), StateSlot { origin: serial, policy });
        i = i + 1;
    }
    assert(seats@.take(i as int) =~= seats@);
}

impl<P, L> Router<P, L> {
    /// Installs the resolved models: mirrors their providers, makes the gates
    /// that are missing, and starts a cursor for each pool that picks its
    /// seats in turn. What stands already stays. Returns the account keys that
    /// quota may be reported for.
    pub fn install_resolved_models(&mut self, models: NameTable<Arc<ResolvedModel<P>>>) -> (accounts:
        Vec<String>)
        ensures
            final(self).resolved_models == models,
            final(self).providers.map() == with_model_providers(
                old(self).providers.map(),
                models@,
            ),
            final(self).state.map() == model_slots(
                old(self).state.map(),
                models@,
                *old(self).config,
                old(self).serial,
            ),
            final(self).round_robin.map() == with_model_cursors(
                old(self).round_robin.map(),
                models@,
                *old(self).config,
                old(self).serial,
            ),
            texts(accounts@) == quota_accounts(models@),
            *final(self) == (Router {
                resolved_models: models,
                providers: final(self).providers,
                state: final(self).state,
                round_robin: final(self).round_robin,
                ..*old(self)
            }),
    {
        let ghost providers_before = self.providers.map();
        let ghost state_before = self.state.map();
        let ghost cursors_before = self.round_robin.map();
        let n = models.len();
        let mut i: usize = 0;
        assert(models@.take(0) =~= Seq::<(Seq<char>, Arc<ResolvedModel<P>>)>::empty());
        while i < n
            invariant
                n == models@.len(),
                i <= n,
                self.providers.map() == with_model_providers(
                    providers_before,
                    models@.take(i as int),
                ),
                self.state.map() == model_slots(
                    state_before,
                    models@.take(i as int),
                    *old(self).config,
                    old(self).serial,
                ),
                self.round_robin.map() == with_model_cursors(
                    cursors_before,
                    models@.take(i as int),
                    *old(self).config,
                    old(self).serial,
                ),
                *self == (Router {
                    providers: self.providers,
                    state: self.state,
                    round_robin: self.round_robin,
                    ..*old(self)
                }),
            decreases n - i,
        {
            assert(models@.take(i as int + 1).drop_last() =~= models@.take(i as int));
            let nickname = models.name_at(i);
            let model = models.value_at(i);
            self.providers.insert_if_absent(model.provider_name.clone(), model.provider.clone());
            if let Some(seats) = &model.seats {
                insert_seat_slots(&mut self.state, seats, nickname, &self.config, self.serial);
                if self.config.is_round_robin(model.provider_name.as_str()) {
                    self.round_robin.insert_if_absent(
                        model.rotation_key().to_owned(),
                        self.serial,
                    );
                }
            }
            let policy = self.config.runtime_policy(model.provider_name.as_str());
            self.state.insert_if_absent(
                nickname.to_owned(),
                StateSlot { origin: self.serial, policy },
            );
            i = i + 1;
        }
        assert(models@.take(i as int) =~= models@);
        self.resolved_models = models;
        self.admit_quota_seats()
    }

    /// The account keys that quota may be reported for: every credential that
    /// the resolved models reach.
    pub fn admit_quota_seats(&self) -> (accounts: Vec<String>)
        ensures
            texts(accounts@) == quota_accounts(self.resolved_models@),
    {
        let mut accounts: Vec<String> = Vec::new();
        let n = self.resolved_models.len();
        let ghost models = self.resolved_models@;
        let mut i: usize = 0;
        assert(models.take(0) =~= Seq::<(Seq<char>, Arc<ResolvedModel<P>>)>::empty());
        assert(texts(accounts@) =~= Seq::<Seq<char>>::empty());
        while i < n
            invariant
                models == self.resolved_models@,
                n == models.len(),
                i <= n,
                texts(accounts@) == quota_accounts(models.take(i as int)),
            decreases n - i,
        {
            assert(models.take(i as int + 1).drop_last() =~= models.take(i as int));
            let model = self.resolved_models.value_at(i);
            if let Some(seats) = &model.seats {
                push_seat_accounts(&mut accounts, seats);
            }
            push_account(&mut accounts, &model.quota_seat);
            i = i + 1;
        }
        assert(models.take(i as int) =~= models);
        accounts
    }

    /// The models whose output ceiling the catalog fills, with the ceiling, in
    /// the order of the nicknames: those without a configured ceiling whose
    /// cell confirms one.
    pub fn catalog_filled_output_ceilings(&self) -> (ceilings: Vec<(String, u32)>)
        ensures
            ceiling_views(ceilings@) == filled_ceilings(self.resolved_models@, *self.config),
    {
        let mut ceilings: Vec<(String, u32)> = Vec::new();
        let n = self.resolved_models.len();
        let ghost models = self.resolved_models@;
        let mut i: usize = 0;
        assert(models.take(0) =~= Seq::<(Seq<char>, Arc<ResolvedModel<P>>)>::empty());
        assert(ceiling_views(ceilings@) =~= Seq::<(Seq<char>, u32)>::empty());
        while i < n
            invariant
                models == self.resolved_models@,
                n == models.len(),
                i <= n,
                ceiling_views(ceilings@) == filled_ceilings(models.take(i as int), *self.config),
            decreases n - i,
        {
            assert(models.take(i as int + 1).drop_last() =~= models.take(i as int));
            let nickname = self.resolved_models.name_at(i);
            let unset: bool = match self.config.models.get(nickname) {
                Some(entry) => match entry.max_output_tokens {
                    Some(tokens) => tokens == 0,
                    None => true,
                },
                None => true,
            };
            if unset {
                if let Some(ceiling) = self.resolved_models.value_at(i).output_ceiling_tokens() {
                    let ghost before = ceiling_views(ceilings@);
                    ceilings.push((nickname.to_owned(), ceiling));
                    assert(ceiling_views(ceilings@) =~= before.push((nickname@, ceiling)));
                }
            }
            i = i + 1;
        }
        assert(models.take(i as int) =~= models);
        ceilings
    }

    /// Whether a model of this nickname is resolved. The one rule by which a
    /// calibration lane is admitted.
    pub fn knows_nickname(&self, nickname: &str) -> (yes: bool)
        ensures
            yes == self.resolved_models.map().dom().contains(nickname@),
    {
        self.resolved_models.contains(nickname)
    }

    /// The resolved model of this nickname.
    pub fn resolve_nickname(&self, nickname: &str) -> (model: Option<Arc<ResolvedModel<P>>>)
        ensures
            model == (if self.resolved_models.map().dom().contains(nickname@) {
                Some(self.resolved_models.map()[nickname@])
            } else {
                None
            }),
    {
        match self.resolved_models.get(nickname) {
            Some(model) => Some(model.clone()),
            None => None,
        }
    }

    /// Registers a provider under a name, with a gate of the unset policy
    /// where the name has none.
    pub fn register(&mut self, name: String, provider: Arc<P>)
        ensures
            final(self).providers.map() == old(self).providers.map().insert(name@, provider),
            final(self).state.map() == with_absent(
                old(self).state.map(),
                name@,
                StateSlot { origin: old(self).serial, policy: unset_policy() },
            ),
            *final(self) == (Router {
                providers: final(self).providers,
                state: final(self).state,
                ..*old(self)
            }),
    {
        self.state.insert_if_absent(
            name.clone(),
            StateSlot { origin: self.serial, policy: RuntimePolicy::default() },
        );
        self.providers.insert(name, provider);
    }

    /// Installs the catalog overlay and its revision together.
    pub fn install_catalog_overlay(&mut self, overlay: Arc<CatalogOverlay>)
        ensures
            *final(self) == (Router {
                overlay_revision: overlay.revision,
                catalog_overlay: overlay,
                ..*old(self)
            }),
    {
        self.overlay_revision = overlay.revision;
        self.catalog_overlay = overlay;
    }

    /// The catalog version that the router was built against.
    pub fn catalog_version(&self) -> (version: u32)
        ensures
            version == self.catalog_version,
    {
        self.catalog_version
    }

    /// The revision of the catalog overlay; zero until one is installed.
    pub fn overlay_revision(&self) -> (revision: u64)
        ensures
            revision == self.overlay_revision,
    {
        self.overlay_revision
    }

    /// The catalog overlay that the router was built against.
    pub fn catalog_overlay(&self) -> (overlay: &CatalogOverlay)
        ensures
            *overlay == *self.catalog_overlay,
    {
        &self.catalog_overlay
    }

    /// Counts every omission of the pool reports and keeps the reports.
    pub fn install_pool_reports(&mut self, metrics: &mut RouterMetrics, reports: Vec<PoolReport>)
        ensures
            *final(metrics) == with_reports(*old(metrics), reports@),
            *final(self) == (Router { pool_reports: reports, ..*old(self) }),
    {
        let ghost before = *metrics;
        let mut i: usize = 0;
        assert(reports@.take(0) =~= Seq::<PoolReport>::empty());
        while i < reports.len()
            invariant
                i <= reports.len(),
                *self == *old(self),
                *metrics == with_reports(before, reports@.take(i as int)),
            decreases reports.len() - i,
        {
            assert(reports@.take(i as int + 1).drop_last() =~= reports@.take(i as int));
            count_omissions(metrics, &reports[i].omissions);
            i = i + 1;
        }
        assert(reports@.take(i as int) =~= reports@);
        self.pool_reports = reports;
    }

    /// How the pools were built.
    pub fn pool_reports(&self) -> (reports: &Vec<PoolReport>)
        ensures
            *reports == self.pool_reports,
    {
        &self.pool_reports
    }

    /// Counts a pin moved off a member that left its pool.
    pub fn note_pool_removed_pin_repick(&self, metrics: &mut RouterMetrics)
        ensures
            *final(metrics) == (RouterMetrics {
                pool_removed_pin_repick_total: bumped(old(metrics).pool_removed_pin_repick_total),
                ..*old(metrics)
            }),
    {
        metrics.incr_pool_removed_pin_repick();
    }

    /// The fields of a snapshot line of the counters.
    pub fn log_metrics_snapshot(
        &self,
        metrics: &RouterMetrics,
        quota_refused_by_admission_total: u64,
    ) -> (fields: Vec<(&'static str, u64)>)
        ensures
            fields@.map_values(|f: (&'static str, u64)| (f.0@, f.1)) == metrics.snapshot_fields(
                quota_refused_by_admission_total,
            ),
    {
        metrics.log_snapshot(quota_refused_by_admission_total)
    }
}

fn count_omissions(metrics: &mut RouterMetrics, omissions: &Vec<PoolOmission>)
    ensures
        *final(metrics) == with_omissions(*old(metrics), omissions@),
{
    let ghost before = *metrics;
    let mut i: usize = 0;
    assert(omissions@.take(0) =~= Seq::<PoolOmission>::empty());
    while i < omissions.len()
        invariant
            i <= omissions.len(),
            *metrics == with_omissions(before, omissions@.take(i as int)),
        decreases omissions.len() - i,
    {
        assert(omissions@.take(i as int + 1).drop_last() =~= omissions@.take(i as int));
        metrics.incr_pool_member_omitted(omissions[i].reason);
        i = i + 1;
    }
    assert(omissions@.take(i as int) =~= omissions@);
}

} // verus!
