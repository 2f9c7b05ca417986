//! What the page server does with the tenants it finds on disk when it starts.
use vstd::prelude::*;

use crate::base::ordered_map;
use crate::base::ordered_map::MapKey;
use crate::base::ordered_map::OrderedMap;
use crate::pageserver::ids::Generation;
use crate::pageserver::ids::TenantShardId;
use crate::pageserver::location::LocationConf;
use crate::pageserver::location::LocationMode;
use crate::pageserver::tenant_map::SecondaryTenant;
use crate::pageserver::tenant_map::Tenant;
use crate::pageserver::tenant_map::TenantSlot;
use crate::pageserver::tenant_map::TenantState;
use crate::pageserver::tenant_map::TenantsMap;

verus! {

/// The configuration that was read for a tenant, or what went wrong.
pub type LoadedConf = Result<LocationConf, String>;

/// What a directory among the tenant directories turns out to be.
#[derive(Clone, Copy, Debug, PartialEq, Eq, Structural)]
pub enum TenantDir {
    /// Left over from a removal: remove it.
    Temporary,
    /// Left over from an attachment that was interrupted: remove it.
    Empty,
    /// Not a tenant's.
    Garbage,
    /// Set aside by the operator.
    Ignored,
    /// To be loaded.
    Tenant(TenantShardId),
}

/// Judges a directory by its name and contents.  `id` is the tenant that the name stands
/// for.
pub fn judge_tenant_dir(
    is_temporary: bool,
    is_empty: bool,
    id: Option<TenantShardId>,
    has_ignore_mark: bool,
) -> (r: TenantDir)
    ensures
        r == if is_temporary {
            TenantDir::Temporary
        } else if is_empty {
            TenantDir::Empty
        } else {
            match id {
                None => TenantDir::Garbage,
                Some(id) => if has_ignore_mark {
                    TenantDir::Ignored
                } else {
                    TenantDir::Tenant(id)
                },
            }
        },
{
    if is_temporary {
        return TenantDir::Temporary;
    }
    if is_empty {
        return TenantDir::Empty;
    }
    match id {
        None => TenantDir::Garbage,
        Some(id) => {
            if has_ignore_mark {
                TenantDir::Ignored
            } else {
                TenantDir::Tenant(id)
            }
        },
    }
}

/// Why a tenant cannot be started from its directory.
#[derive(Clone, Copy, Debug, PartialEq, Eq, Structural)]
pub enum SpawnRefusal {
    NotADirectory,
    Temporary,
    Empty,
    IgnoreMark,
}

/// Whether a tenant can be started from its directory.
pub fn check_spawn(is_dir: bool, is_temporary: bool, is_empty: bool, has_ignore_mark: bool) -> (r:
    Result<(), SpawnRefusal>)
    ensures
        r == if !is_dir {
            Err(SpawnRefusal::NotADirectory)
        } else if is_temporary {
            Err(SpawnRefusal::Temporary)
        } else if is_empty {
            Err(SpawnRefusal::Empty)
        } else if has_ignore_mark {
            Err(SpawnRefusal::IgnoreMark)
        } else {
            Ok(())
        },
{
    if !is_dir {
        return Err(SpawnRefusal::NotADirectory);
    }
    if is_temporary {
        return Err(SpawnRefusal::Temporary);
    }
    if is_empty {
        return Err(SpawnRefusal::Empty);
    }
    if has_ignore_mark {
        return Err(SpawnRefusal::IgnoreMark);
    }
    Ok(())
}

/// The generation in which a tenant was last attached.
pub open spec fn known_generation(conf: LoadedConf) -> Option<Generation> {
    match conf {
        Ok(lc) => match lc.mode {
            LocationMode::Attached(a) => Some(a.generation),
            LocationMode::Secondary(_) => None,
        },
        Err(_) => None,
    }
}

/// The generations to attach tenants in when the control plane cannot be asked: those in
/// which they were last attached.
pub fn emergency_generations(confs: &OrderedMap<TenantShardId, LoadedConf>) -> (r: OrderedMap<
    TenantShardId,
    Generation,
>)
    requires
        confs.wf(),
    ensures
        r.wf(),
        forall|id: TenantShardId|
            #![trigger r@.dom().contains(id)]
            r@.dom().contains(id) == (confs@.dom().contains(id) && known_generation(
                confs@[id],
            ) is Some) && (r@.dom().contains(id) ==> Some(r@[id]) == known_generation(confs@[id])),
{
    let mut generations: OrderedMap<TenantShardId, Generation> = OrderedMap::new();
    let mut i: usize = 0;
    while i < confs.entries.len()
        invariant
            confs.wf(),
            generations.wf(),
            i <= confs.entries@.len(),
            forall|id: TenantShardId|
                #![trigger generations@.dom().contains(id)]
                generations@.dom().contains(id) == (confs@.dom().contains(id)
                    && ordered_map::key_index(confs.entries@, id) < i && known_generation(
                    confs@[id],
                ) is Some) && (generations@.dom().contains(id) ==> Some(generations@[id])
                    == known_generation(confs@[id])),
        decreases confs.entries@.len() - i,
    {
        let ghost before = generations@;
        proof {
            confs.lemma_entry(i as int);
        }
        let id = confs.entries[i].0;
        if let Ok(lc) = &confs.entries[i].1 {
            if let LocationMode::Attached(a) = lc.mode {
                generations.insert(id, a.generation);
            }
        }
        proof {
            let known = known_generation(confs@[id]);
            assert(generations@ == if known is Some {
                before.insert(id, known->0)
            } else {
                before
            });
            assert forall|k: TenantShardId|
                #![trigger generations@.dom().contains(k)]
                generations@.dom().contains(k) == (confs@.dom().contains(k)
                    && ordered_map::key_index(confs.entries@, k) < i + 1 && known_generation(
                    confs@[k],
                ) is Some) && (generations@.dom().contains(k) ==> Some(generations@[k])
                    == known_generation(confs@[k])) by {
                assert(before.dom().contains(k) == (confs@.dom().contains(k)
                    && ordered_map::key_index(confs.entries@, k) < i && known_generation(
                    confs@[k],
                ) is Some));
                if confs@.dom().contains(k) && ordered_map::key_index(confs.entries@, k) == i {
                    assert(confs.entries@[i as int].0 == k);
                }
            }
        }
        i += 1;
    }
    assert forall|id: TenantShardId|
        #![trigger generations@.dom().contains(id)]
        generations@.dom().contains(id) == (confs@.dom().contains(id) && known_generation(
            confs@[id],
        ) is Some) by {
        if confs@.dom().contains(id) {
            let j = ordered_map::key_index(confs.entries@, id);
            assert(confs.entries@[j].0 == id);
        }
    }
    generations
}

/// Where the generations of the tenants come from.
#[derive(Clone, Copy, Debug, PartialEq, Eq, Structural)]
pub enum GenerationSource {
    /// From the last attachment of each tenant.
    LastKnown,
    /// From the control plane, which decides which tenants are attached.
    ControlPlane,
    /// There are none.
    Disabled,
}

/// Where the generations of the tenants come from.
pub fn generation_source(emergency_mode: bool, control_plane: bool) -> (r: GenerationSource)
    ensures
        r == if emergency_mode {
            GenerationSource::LastKnown
        } else if control_plane {
            GenerationSource::ControlPlane
        } else {
            GenerationSource::Disabled
        },
{
    if emergency_mode {
        GenerationSource::LastKnown
    } else if control_plane {
        GenerationSource::ControlPlane
    } else {
        GenerationSource::Disabled
    }
}

/// What is done with a tenant at startup.
#[derive(Clone, Copy, Debug, PartialEq, Eq, Structural)]
pub enum StartupAction {
    /// Put a broken tenant into its slot.
    MarkBroken,
    /// Put a secondary tenant with this setting into its slot.
    LoadSecondary { warm: bool },
    /// The control plane has attached it elsewhere: remove its directory.
    RemoveDirectory,
    /// Write this configuration and start the tenant.
    Attach { conf: LocationConf },
}

/// What the control plane has said of a tenant: nothing where there is no control plane,
/// otherwise the generation if the tenant is to be attached here.
pub type Verdict = Option<Option<Generation>>;

/// Whether attaching a location in `generation` would take it back to an older generation than
/// the one it was last attached in.
pub open spec fn goes_back(conf: LocationConf, generation: Generation) -> bool {
    conf.mode matches LocationMode::Attached(a) && a.generation.rank() > generation.rank()
}

/// What is done with a tenant.  One whose generation would go back cannot safely be attached;
/// it becomes secondary, which keeps its files.
pub open spec fn action_for(conf: LoadedConf, verdict: Verdict) -> StartupAction {
    match conf {
        Err(_) => StartupAction::MarkBroken,
        Ok(lc) => match verdict {
            None => StartupAction::Attach { conf: lc.in_generation(Generation::Unset) },
            Some(Some(gen)) => if goes_back(lc, gen) {
                StartupAction::LoadSecondary { warm: false }
            } else {
                StartupAction::Attach { conf: lc.in_generation(gen) }
            },
            Some(None) => match lc.mode {
                LocationMode::Secondary(s) => StartupAction::LoadSecondary { warm: s.warm },
                LocationMode::Attached(_) => StartupAction::RemoveDirectory,
            },
        },
    }
}

/// What the generations say of a tenant.
pub open spec fn verdict_for(
    generations: Option<OrderedMap<TenantShardId, Generation>>,
    id: TenantShardId,
) -> Verdict {
    match generations {
        None => None,
        Some(m) => Some(
            if m@.dom().contains(id) {
                Some(m@[id])
            } else {
                None
            },
        ),
    }
}

/// Decides what is done with a tenant at startup.
pub fn startup_action(
    id: TenantShardId,
    conf: &LoadedConf,
    generations: &Option<OrderedMap<TenantShardId, Generation>>,
) -> (r: StartupAction)
    requires
        generations matches Some(m) ==> m.wf(),
    ensures
        r == action_for(*conf, verdict_for(*generations, id)),
{
    let mut location_conf = match conf {
        Ok(l) => *l,
        Err(_) => {
            return StartupAction::MarkBroken;
        },
    };
    let generation = match generations {
        Some(generations) => match generations.get(&id) {
            Some(gen) => {
                if let LocationMode::Attached(attached) = &location_conf.mode {
                    if gen.older_than(&attached.generation) {
                        return StartupAction::LoadSecondary { warm: false };
                    }
                }
                *gen
            },
            None => {
                return match location_conf.mode {
                    LocationMode::Secondary(s) => StartupAction::LoadSecondary { warm: s.warm },
                    LocationMode::Attached(_) => StartupAction::RemoveDirectory,
                };
            },
        },
        None => Generation::Unset,
    };
    location_conf.attach_in_generation(generation);
    StartupAction::Attach { conf: location_conf }
}

/// The slot of a secondary tenant found at startup.
pub open spec fn secondary_at_startup(
    id: TenantShardId,
    conf: LocationConf,
    warm: bool,
    handle: u64,
) -> TenantSlot {
    TenantSlot::Secondary(
        SecondaryTenant {
            tenant_shard_id: id,
            shard_identity: conf.shard,
            tenant_conf: conf.tenant_conf,
            warm,
            cancelled: false,
            shut_down: false,
            handle,
        },
    )
}

/// Whether a tenant is one that the action may have brought about: it has the shard's name; a
/// tenant marked broken says what was wrong with its configuration; a tenant that was started
/// has the generation, the attachment mode, the place among the shards and the settings that were
/// written, unless it broke while it was started.
pub open spec fn brought_about(
    id: TenantShardId,
    conf: LoadedConf,
    action: StartupAction,
    tenant: Tenant,
) -> bool {
    &&& tenant.tenant_shard_id == id
    &&& match action {
        StartupAction::MarkBroken => match tenant.state {
            TenantState::Broken { reason, .. } => conf matches Err(why) && reason@ == why@,
            _ => false,
        },
        StartupAction::Attach { conf: written } => tenant.state is Broken || {
            &&& written.mode matches LocationMode::Attached(a)
            &&& tenant.generation == a.generation
            &&& tenant.attach_mode == a.attach_mode
            &&& tenant.shard_identity == written.shard
            &&& tenant.tenant_conf == written.tenant_conf
        },
        _ => false,
    }
}

/// Whether this may be what became of a tenant: one that is marked broken is always put in; one
/// that is to be attached is there if it could be started; otherwise there is none.
pub open spec fn fits(
    id: TenantShardId,
    conf: LoadedConf,
    action: StartupAction,
    started: Option<Tenant>,
) -> bool {
    match started {
        Some(tenant) => brought_about(id, conf, action, tenant),
        None => action !is MarkBroken,
    }
}

/// The slots after a tenant has been dealt with.  `started` is the tenant that was started
/// or put in as broken.
pub open spec fn settled(
    slots: Map<TenantShardId, TenantSlot>,
    id: TenantShardId,
    conf: LoadedConf,
    action: StartupAction,
    started: Option<Tenant>,
    handle: u64,
) -> Map<TenantShardId, TenantSlot> {
    match (action, conf, started) {
        (StartupAction::LoadSecondary { warm }, Ok(lc), _) => slots.insert(
            id,
            secondary_at_startup(id, lc, warm, handle),
        ),
        (StartupAction::MarkBroken, _, Some(t)) => slots.insert(id, TenantSlot::Attached(t)),
        (StartupAction::Attach { .. }, _, Some(t)) => slots.insert(id, TenantSlot::Attached(t)),
        _ => slots,
    }
}

/// Notes a tenant among the slots.
pub fn settle(
    tenants: &mut OrderedMap<TenantShardId, TenantSlot>,
    id: TenantShardId,
    conf: &LoadedConf,
    action: StartupAction,
    started: Option<Tenant>,
    handle: u64,
)
    requires
        old(tenants).wf(),
        fits(id, *conf, action, started),
    ensures
        final(tenants).wf(),
        final(tenants)@ == settled(old(tenants)@, id, *conf, action, started, handle),
{
    match action {
        StartupAction::LoadSecondary { warm } => {
            if let Ok(lc) = conf {
                tenants.insert(
                    id,
                    TenantSlot::Secondary(
                        SecondaryTenant {
                            tenant_shard_id: id,
                            shard_identity: lc.shard,
                            tenant_conf: lc.tenant_conf,
                            warm,
                            cancelled: false,
                            shut_down: false,
                            handle,
                        },
                    ),
                );
            }
        },
        StartupAction::MarkBroken => {
            if let Some(t) = started {
                tenants.insert(id, TenantSlot::Attached(t));
            }
        },
        StartupAction::Attach { .. } => {
            if let Some(t) = started {
                tenants.insert(id, TenantSlot::Attached(t));
            }
        },
        StartupAction::RemoveDirectory => {},
    }
}

/// Opens the map with the tenants found at startup.
pub fn open_tenants(tenants_map: &mut TenantsMap, tenants: OrderedMap<TenantShardId, TenantSlot>)
    requires
        *old(tenants_map) is Initializing,
        tenants.wf(),
    ensures
        final(tenants_map).wf(),
        *final(tenants_map) == TenantsMap::Open(tenants),
{
    *tenants_map = TenantsMap::Open(tenants);
}

/// The slots after tenants have been dealt with in order.  For each there is the tenant that
/// was started or put in as broken, and a handle.
pub open spec fn slots_after(
    entries: Seq<(TenantShardId, LoadedConf)>,
    generations: Option<OrderedMap<TenantShardId, Generation>>,
    outcomes: Seq<(Option<Tenant>, u64)>,
) -> Map<TenantShardId, TenantSlot>
    decreases outcomes.len(),
{
    if outcomes.len() == 0 {
        Map::empty()
    } else {
        let (id, conf) = entries[outcomes.len() - 1];
        let (started, handle) = outcomes.last();
        settled(
            slots_after(entries, generations, outcomes.drop_last()),
            id,
            conf,
            action_for(conf, verdict_for(generations, id)),
            started,
            handle,
        )
    }
}

/// Whether this may be what became of the tenants that were dealt with.
pub open spec fn all_fit(
    entries: Seq<(TenantShardId, LoadedConf)>,
    generations: Option<OrderedMap<TenantShardId, Generation>>,
    outcomes: Seq<(Option<Tenant>, u64)>,
) -> bool {
    &&& outcomes.len() <= entries.len()
    &&& forall|i: int|
        0 <= i < outcomes.len() ==> fits(
            entries[i].0,
            entries[i].1,
            action_for(entries[i].1, verdict_for(generations, entries[i].0)),
            (#[trigger] outcomes[i]).0,
        )
}

/// The startup of the tenants that were found on disk, one after the other.
pub struct StartupRun {
    pub confs: OrderedMap<TenantShardId, LoadedConf>,
    pub generations: Option<OrderedMap<TenantShardId, Generation>>,
    /// The slots of the tenants that were dealt with.
    pub tenants: OrderedMap<TenantShardId, TenantSlot>,
    /// How many tenants were dealt with.
    pub next: usize,
    /// What became of them.
    pub outcomes: Ghost<Seq<(Option<Tenant>, u64)>>,
}

impl StartupRun {
    /// The slots are those of the tenants that were dealt with.
    pub open spec fn wf(self) -> bool {
        &&& self.confs.wf()
        &&& self.generations matches Some(m) ==> m.wf()
        &&& self.tenants.wf()
        &&& self.next == self.outcomes@.len()
        &&& all_fit(self.confs.entries@, self.generations, self.outcomes@)
        &&& self.tenants@ == slots_after(self.confs.entries@, self.generations, self.outcomes@)
    }

    /// What is done with the next tenant.
    pub open spec fn pending(self) -> Option<(TenantShardId, StartupAction)> {
        if self.next < self.confs.entries@.len() {
            let (id, conf) = self.confs.entries@[self.next as int];
            Some((id, action_for(conf, verdict_for(self.generations, id))))
        } else {
            None
        }
    }

    /// Begins with the configurations that were found and the generations, where there are
    /// any.
    pub fn new(
        confs: OrderedMap<TenantShardId, LoadedConf>,
        generations: Option<OrderedMap<TenantShardId, Generation>>,
    ) -> (r: StartupRun)
        requires
            confs.wf(),
            generations matches Some(m) ==> m.wf(),
        ensures
            r.wf(),
            r.confs == confs,
            r.generations == generations,
            r.next == 0,
            r.outcomes@ == Seq::<(Option<Tenant>, u64)>::empty(),
    {
        StartupRun {
            confs,
            generations,
            tenants: OrderedMap::new(),
            next: 0,
            outcomes: Ghost(Seq::empty()),
        }
    }

    /// Decides what is done with the next tenant; none is left behind the last.
    pub fn next_action(&self) -> (r: Option<(TenantShardId, StartupAction)>)
        requires
            self.wf(),
        ensures
            r == self.pending(),
    {
        if self.next < self.confs.entries.len() {
            let id = self.confs.entries[self.next].0;
            let action = startup_action(id, &self.confs.entries[self.next].1, &self.generations);
            Some((id, action))
        } else {
            None
        }
    }

    /// Notes what became of the tenant.  `started` is the tenant that was started or put in as
    /// broken.
    pub fn dealt_with(&mut self, started: Option<Tenant>, handle: u64)
        requires
            old(self).wf(),
            old(self).pending() matches Some((id, action)) && fits(
                id,
                old(self).confs.entries@[old(self).next as int].1,
                action,
                started,
            ),
        ensures
            final(self).wf(),
            final(self).confs == old(self).confs,
            final(self).generations == old(self).generations,
            final(self).next == old(self).next + 1,
            final(self).outcomes@ == old(self).outcomes@.push((started, handle)),
    {
        let id = self.confs.entries[self.next].0;
        let action = startup_action(id, &self.confs.entries[self.next].1, &self.generations);
        settle(
            &mut self.tenants,
            id,
            &self.confs.entries[self.next].1,
            action,
            started,
            handle,
        );
        assert(self.next < self.confs.entries.len());
        self.next = self.next + 1;
        self.outcomes = Ghost(self.outcomes@.push((started, handle)));
        assert(self.outcomes@.drop_last() =~= old(self).outcomes@);
        assert(all_fit(self.confs.entries@, self.generations, self.outcomes@)) by {
            assert forall|i: int| 0 <= i < self.outcomes@.len() implies fits(
                self.confs.entries@[i].0,
                self.confs.entries@[i].1,
                action_for(
                    self.confs.entries@[i].1,
                    verdict_for(self.generations, self.confs.entries@[i].0),
                ),
                (#[trigger] self.outcomes@[i]).0,
            ) by {
                if i < old(self).outcomes@.len() {
                    assert(self.outcomes@[i] == old(self).outcomes@[i]);
                }
            }
        }
    }

    /// Opens the map once all tenants were dealt with.
    pub fn finish(self, tenants_map: &mut TenantsMap)
        requires
            self.wf(),
            self.pending() is None,
            *old(tenants_map) is Initializing,
        ensures
            final(tenants_map).wf(),
            final(tenants_map).is_open(),
            final(tenants_map).slots() == slots_after(
                self.confs.entries@,
                self.generations,
                self.outcomes@,
            ),
    {
        open_tenants(tenants_map, self.tenants);
    }
}

/// Where there is a control plane, a tenant is attached after startup only if the control
/// plane has named it, or as broken because its configuration could not be read.
pub proof fn attached_tenants_were_named(
    entries: Seq<(TenantShardId, LoadedConf)>,
    generations: OrderedMap<TenantShardId, Generation>,
    outcomes: Seq<(Option<Tenant>, u64)>,
    id: TenantShardId,
)
    requires
        outcomes.len() <= entries.len(),
        ({
            let slots = slots_after(entries, Some(generations), outcomes);
            slots.dom().contains(id) && slots[id] is Attached
        }),
    ensures
        generations@.dom().contains(id) || exists|i: int|
            0 <= i < entries.len() && (#[trigger] entries[i]).0 == id && entries[i].1 is Err,
    decreases outcomes.len(),
{
    if outcomes.len() > 0 {
        let n = outcomes.len() - 1;
        let before = slots_after(entries, Some(generations), outcomes.drop_last());
        if entries[n].0 == id {
            assert(entries[n].1 is Err || generations@.dom().contains(id) || (before.dom().contains(
                id,
            ) && before[id] is Attached));
        }
        if before.dom().contains(id) && before[id] is Attached {
            attached_tenants_were_named(entries, generations, outcomes.drop_last(), id);
        }
    }
}

/// Startup puts no slot in for a tenant that was not found on disk.
pub proof fn startup_adds_no_other_tenants(
    entries: Seq<(TenantShardId, LoadedConf)>,
    generations: Option<OrderedMap<TenantShardId, Generation>>,
    outcomes: Seq<(Option<Tenant>, u64)>,
    id: TenantShardId,
)
    requires
        outcomes.len() <= entries.len(),
        slots_after(entries, generations, outcomes).dom().contains(id),
    ensures
        exists|i: int| 0 <= i < outcomes.len() && (#[trigger] entries[i]).0 == id,
    decreases outcomes.len(),
{
    let n = outcomes.len() - 1;
    if outcomes.len() > 0 && entries[n].0 != id {
        startup_adds_no_other_tenants(entries, generations, outcomes.drop_last(), id);
    }
}

/// Every attached slot holds a tenant that the decision on its shard has brought about.
pub proof fn attached_slots_follow_their_decisions(
    entries: Seq<(TenantShardId, LoadedConf)>,
    generations: Option<OrderedMap<TenantShardId, Generation>>,
    outcomes: Seq<(Option<Tenant>, u64)>,
    id: TenantShardId,
    tenant: Tenant,
)
    requires
        all_fit(entries, generations, outcomes),
        slots_after(entries, generations, outcomes).dom().contains(id),
        slots_after(entries, generations, outcomes)[id] == TenantSlot::Attached(tenant),
    ensures
        exists|i: int|
            0 <= i < outcomes.len() && (#[trigger] entries[i]).0 == id && brought_about(
                id,
                entries[i].1,
                action_for(entries[i].1, verdict_for(generations, id)),
                tenant,
            ),
    decreases outcomes.len(),
{
    if outcomes.len() > 0 {
        let n = outcomes.len() - 1;
        let front = outcomes.drop_last();
        let before = slots_after(entries, generations, front);
        assert(outcomes[n] == outcomes.last());
        assert(all_fit(entries, generations, front)) by {
            assert forall|i: int| 0 <= i < front.len() implies fits(
                entries[i].0,
                entries[i].1,
                action_for(entries[i].1, verdict_for(generations, entries[i].0)),
                (#[trigger] front[i]).0,
            ) by {
                assert(front[i] == outcomes[i]);
            }
        }
        if entries[n].0 == id && outcomes[n].0 == Some(tenant) {
            assert(brought_about(
                id,
                entries[n].1,
                action_for(entries[n].1, verdict_for(generations, id)),
                tenant,
            ));
        } else {
            assert(before.dom().contains(id) && before[id] == TenantSlot::Attached(tenant));
            attached_slots_follow_their_decisions(entries, generations, front, id, tenant);
        }
    }
}

/// Where generations are in use, a tenant that runs after startup has the generation that was
/// given to it, and that is no older than the one it was last attached in.
pub proof fn generations_of_running_tenants_never_go_back(
    entries: Seq<(TenantShardId, LoadedConf)>,
    generations: OrderedMap<TenantShardId, Generation>,
    outcomes: Seq<(Option<Tenant>, u64)>,
    id: TenantShardId,
    tenant: Tenant,
)
    requires
        all_fit(entries, Some(generations), outcomes),
        slots_after(entries, Some(generations), outcomes).dom().contains(id),
        slots_after(entries, Some(generations), outcomes)[id] == TenantSlot::Attached(tenant),
        tenant.state !is Broken,
    ensures
        generations@.dom().contains(id),
        tenant.generation == generations@[id],
        exists|i: int|
            0 <= i < outcomes.len() && (#[trigger] entries[i]).0 == id && (known_generation(
                entries[i].1,
            ) matches Some(local) ==> local.rank() <= tenant.generation.rank()),
{
    attached_slots_follow_their_decisions(entries, Some(generations), outcomes, id, tenant);
    let i = choose|i: int|
        0 <= i < outcomes.len() && (#[trigger] entries[i]).0 == id && brought_about(
            id,
            entries[i].1,
            action_for(entries[i].1, verdict_for(Some(generations), id)),
            tenant,
        );
    assert(entries[i].0 == id);
}

/// A tenant is attached exactly where its configuration could be read and there is either no
/// control plane, or one that names the tenant in a generation that does not go back.  The
/// generation it is attached in is the control plane's.
pub proof fn control_plane_decides_attachment(conf: LoadedConf, verdict: Verdict)
    ensures
        action_for(conf, verdict) is Attach <==> (conf matches Ok(lc) && match verdict {
            None => true,
            Some(None) => false,
            Some(Some(gen)) => !goes_back(lc, gen),
        }),
        action_for(conf, verdict) matches StartupAction::Attach { conf: written }
            ==> written.mode matches LocationMode::Attached(a) && a.generation == match verdict {
            Some(Some(gen)) => gen,
            _ => Generation::Unset,
        },
{
}

/// A tenant whose generation would go back ends up secondary, without a warm cache.
pub proof fn decreasing_generations_demote(
    slots: Map<TenantShardId, TenantSlot>,
    id: TenantShardId,
    conf: LocationConf,
    gen: Generation,
    started: Option<Tenant>,
    handle: u64,
)
    requires
        goes_back(conf, gen),
        fits(id, Ok(conf), action_for(Ok(conf), Some(Some(gen))), started),
    ensures
        action_for(Ok(conf), Some(Some(gen))) == (StartupAction::LoadSecondary { warm: false }),
        started is None,
        settled(slots, id, Ok(conf), action_for(Ok(conf), Some(Some(gen))), started, handle)
            == slots.insert(id, secondary_at_startup(id, conf, false, handle)),
{
}

/// Local files are removed only where the control plane exists, does not name the tenant,
/// and the tenant was attached.
pub proof fn directories_are_removed_only_for_detached_tenants(conf: LoadedConf, verdict: Verdict)
    ensures
        action_for(conf, verdict) == StartupAction::RemoveDirectory <==> verdict == Some(
            None::<Generation>,
        ) && (conf matches Ok(lc) && lc.mode is Attached),
{
}

/// Starting in emergency mode attaches each tenant in the generation it had, so no
/// generation goes back.
pub proof fn emergency_mode_keeps_generations(conf: LoadedConf)
    requires
        known_generation(conf) is Some,
    ensures
        action_for(conf, Some(known_generation(conf))) == (StartupAction::Attach {
            conf: conf->Ok_0,
        }),
{
}

/// What is done with a tenant's directory at startup.  A configuration that could not be read
/// breaks the tenant.  Without a control plane every tenant is attached without a generation.
/// With one, a tenant that it gives a generation is attached in it, unless the tenant was
/// attached in a newer one, and then becomes a cold secondary; one that it does not know stays
/// secondary where it was, and otherwise its directory is removed.
pub proof fn every_directory_is_decided_on(
    lc: LocationConf,
    why: String,
    verdict: Verdict,
    gen: Generation,
)
    ensures
        action_for(Err(why), verdict) is MarkBroken,
        !(action_for(Ok(lc), verdict) is MarkBroken),
        action_for(Ok(lc), None) == (StartupAction::Attach {
            conf: lc.in_generation(Generation::Unset),
        }),
        action_for(Ok(lc), Some(Some(gen))) == if lc.mode is Attached
            && lc.mode->Attached_0.generation.rank() > gen.rank() {
            StartupAction::LoadSecondary { warm: false }
        } else {
            StartupAction::Attach { conf: lc.in_generation(gen) }
        },
        lc.mode matches LocationMode::Secondary(s) ==> action_for(Ok(lc), Some(None)) == (
        StartupAction::LoadSecondary { warm: s.warm }),
        lc.mode is Attached ==> action_for(Ok(lc), Some(None)) == StartupAction::RemoveDirectory,
{
}

/// Numbered generations go back exactly where the number is smaller.
pub proof fn smaller_generations_go_back(lc: LocationConf, local: u32, given: u32)
    requires
        lc.mode matches LocationMode::Attached(a) && a.generation == Generation::Valid(local),
    ensures
        goes_back(lc, Generation::Valid(given)) <==> given < local,
{
}

/// The control plane's verdict on a tenant is the generation that it has for the tenant, if any;
/// without a control plane there is none.
pub proof fn verdicts_are_looked_up(
    generations: OrderedMap<TenantShardId, Generation>,
    id: TenantShardId,
)
    ensures
        verdict_for(None, id) is None,
        verdict_for(Some(generations), id) is Some,
        generations@.dom().contains(id) ==> verdict_for(Some(generations), id) == Some(
            Some(generations@[id]),
        ),
        !generations@.dom().contains(id) ==> verdict_for(Some(generations), id) == Some(
            None::<Generation>,
        ),
{
}

/// The generation that is known of a tenant is that of its attachment.
pub proof fn known_generations_are_of_attachments(lc: LocationConf, why: String)
    ensures
        lc.mode matches LocationMode::Attached(a) ==> known_generation(Ok(lc)) == Some(
            a.generation,
        ),
        lc.mode is Secondary ==> known_generation(Ok(lc)) is None,
        known_generation(Err(why)) is None,
{
}

/// A tenant that is settled changes its own slot and no other; a secondary one is as its
/// configuration says, and one that was started is in its slot.
pub proof fn settling_changes_one_slot(
    slots: Map<TenantShardId, TenantSlot>,
    id: TenantShardId,
    conf: LoadedConf,
    action: StartupAction,
    started: Option<Tenant>,
    handle: u64,
    other: TenantShardId,
)
    ensures
        ({
            let after = settled(slots, id, conf, action, started, handle);
            &&& other != id ==> after.dom().contains(other) == slots.dom().contains(other) && (
            slots.dom().contains(other) ==> after[other] == slots[other])
            &&& action matches StartupAction::LoadSecondary { warm } ==> (conf matches Ok(lc)
                ==> after.dom().contains(id) && after[id] == TenantSlot::Secondary(
                SecondaryTenant {
                    tenant_shard_id: id,
                    shard_identity: lc.shard,
                    tenant_conf: lc.tenant_conf,
                    warm,
                    cancelled: false,
                    shut_down: false,
                    handle,
                },
            ))
            &&& (action is Attach || action is MarkBroken) && started is Some ==> after.dom().contains(
                id,
            ) && after[id] == TenantSlot::Attached(started->0)
            &&& (action is Attach || action is MarkBroken) && started is None ==> after == slots
            &&& action is RemoveDirectory ==> after == slots
        }),
{
}

/// After startup every tenant that was settled has its slot, whatever was settled after it.
pub proof fn settled_tenants_stay_settled(
    entries: Seq<(TenantShardId, LoadedConf)>,
    generations: Option<OrderedMap<TenantShardId, Generation>>,
    outcomes: Seq<(Option<Tenant>, u64)>,
    i: int,
)
    requires
        outcomes.len() <= entries.len(),
        0 <= i < outcomes.len(),
        forall|a: int, b: int|
            0 <= a < b < entries.len() ==> (#[trigger] entries[a]).0 != (#[trigger] entries[b]).0,
    ensures
        ({
            let slots = slots_after(entries, generations, outcomes);
            let (id, conf) = entries[i];
            let action = action_for(conf, verdict_for(generations, id));
            let (started, handle) = outcomes[i];
            &&& slots.dom().contains(id) <==> action is LoadSecondary || ((action is Attach
                || action is MarkBroken) && started is Some)
            &&& action is LoadSecondary ==> slots[id] is Secondary
                && slots[id]->Secondary_0.tenant_shard_id == id && slots[id]->Secondary_0.handle
                == handle
            &&& (action is Attach || action is MarkBroken) && started is Some ==> slots[id]
                == TenantSlot::Attached(started->0)
        }),
    decreases outcomes.len(),
{
    let front = outcomes.drop_last();
    let n = outcomes.len() - 1;
    let id = entries[i].0;
    if i < n {
        settled_tenants_stay_settled(entries, generations, front, i);
        assert(entries[i].0 != entries[n].0);
        assert(front[i] == outcomes[i]);
    } else if slots_after(entries, generations, front).dom().contains(id) {
        startup_adds_no_other_tenants(entries, generations, front, id);
        let k = choose|k: int| 0 <= k < front.len() && (#[trigger] entries[k]).0 == id;
        assert(entries[k].0 != entries[i].0);
    }
}

/// What came of a decision fits it: only a tenant that breaks must have come of it, and a tenant
/// that was attached runs with what was written for it, unless it broke.
pub proof fn started_tenants_fit_their_decision(
    id: TenantShardId,
    conf: LoadedConf,
    action: StartupAction,
    t: Tenant,
)
    ensures
        fits(id, conf, action, None) <==> !(action is MarkBroken),
        fits(id, conf, action, Some(t)) ==> t.tenant_shard_id == id && (action is Attach || action
            is MarkBroken),
        action is MarkBroken && fits(id, conf, action, Some(t)) ==> (conf matches Err(why) && (
        t.state matches TenantState::Broken { reason, .. } && reason@ == why@)),
        action is Attach && t.tenant_shard_id == id && t.state is Broken ==> fits(
            id,
            conf,
            action,
            Some(t),
        ),
        action matches StartupAction::Attach { conf: written } ==> (!(t.state is Broken) ==> (fits(
            id,
            conf,
            action,
            Some(t),
        ) <==> t.tenant_shard_id == id && written.mode is Attached && t.generation
            == written.mode->Attached_0.generation && t.attach_mode
            == written.mode->Attached_0.attach_mode && t.shard_identity == written.shard
            && t.tenant_conf == written.tenant_conf)),
{
}

} // verus!
