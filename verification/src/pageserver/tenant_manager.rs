//! Operations on the tenants of the page server: looking them up, listing them and
//! shutting them all down.
use vstd::prelude::*;

use crate::base::ordered_map;
use crate::base::ordered_map::MapKey;
use crate::base::ordered_map::OrderedMap;
use crate::pageserver::ids::Generation;
use crate::pageserver::ids::TenantId;
use crate::pageserver::ids::TenantShardId;
use crate::pageserver::tenant_map;
use crate::pageserver::tenant_map::SecondaryTenant;
use crate::pageserver::tenant_map::ShardSelector;
use crate::pageserver::tenant_map::Tenant;
use crate::pageserver::tenant_map::TenantMapError;
use crate::pageserver::tenant_map::TenantSlot;
use crate::pageserver::tenant_map::TenantSlotPeekMode;
use crate::pageserver::tenant_map::TenantState;
use crate::pageserver::tenant_map::TenantsMap;

verus! {

/// Why a tenant was not found fit for a request.
pub enum GetTenantError {
    NotFound(TenantId),
    NotActive(TenantShardId),
    Broken(String),
    /// It cannot be said whether the tenant is here.
    MapState(TenantMapError),
}

/// What a lookup of an attached tenant gives.
pub open spec fn lookup(
    tenants: TenantsMap,
    id: TenantShardId,
    active_only: bool,
) -> Result<Tenant, GetTenantError> {
    match tenant_map::peeked(tenants, id, TenantSlotPeekMode::Read) {
        Err(e) => Err(GetTenantError::MapState(e)),
        Ok(Some(TenantSlot::Attached(t))) => if t.state is Active || !active_only {
            Ok(t)
        } else {
            match t.state {
                TenantState::Broken { reason, .. } => Err(GetTenantError::Broken(reason)),
                _ => Err(GetTenantError::NotActive(id)),
            }
        },
        Ok(Some(TenantSlot::InProgress(_))) => Err(GetTenantError::NotActive(id)),
        Ok(Some(TenantSlot::Secondary(_))) => Err(GetTenantError::NotFound(id.tenant_id)),
        Ok(None) => Err(GetTenantError::NotFound(id.tenant_id)),
    }
}

/// The attached tenant of a slot; with `active_only` only one that is ready for operations.
pub fn get_tenant(tenants: &TenantsMap, tenant_shard_id: TenantShardId, active_only: bool) -> (r:
    Result<&Tenant, GetTenantError>)
    requires
        tenants.wf(),
    ensures
        match lookup(*tenants, tenant_shard_id, active_only) {
            Ok(t) => r matches Ok(found) && *found == t,
            Err(e) => r == Err::<&Tenant, GetTenantError>(e),
        },
{
    let peek_slot = match tenant_map::tenant_map_peek_slot(
        tenants,
        &tenant_shard_id,
        TenantSlotPeekMode::Read,
    ) {
        Ok(peek_slot) => peek_slot,
        Err(e) => {
            return Err(GetTenantError::MapState(e));
        },
    };
    match peek_slot {
        Some(TenantSlot::Attached(tenant)) => match &tenant.state {
            TenantState::Broken { reason, backtrace: _ } => {
                if active_only {
                    Err(GetTenantError::Broken(reason.clone()))
                } else {
                    Ok(tenant)
                }
            },
            TenantState::Active => Ok(tenant),
            _ => {
                if active_only {
                    Err(GetTenantError::NotActive(tenant_shard_id))
                } else {
                    Ok(tenant)
                }
            },
        },
        Some(TenantSlot::InProgress(_)) => Err(GetTenantError::NotActive(tenant_shard_id)),
        Some(TenantSlot::Secondary(_)) => Err(GetTenantError::NotFound(tenant_shard_id.tenant_id)),
        None => Err(GetTenantError::NotFound(tenant_shard_id.tenant_id)),
    }
}

/// The shards whose tenants are attached and active, in order.
pub open spec fn active_shards(entries: Seq<(TenantShardId, TenantSlot)>) -> Seq<TenantShardId>
    decreases entries.len(),
{
    if entries.len() == 0 {
        Seq::empty()
    } else {
        let front = active_shards(entries.drop_last());
        match entries.last().1 {
            TenantSlot::Attached(t) => if t.state is Active {
                front.push(entries.last().0)
            } else {
                front
            },
            _ => front,
        }
    }
}

/// The shards in secondary mode that have not been told to stop, in order.
pub open spec fn live_secondaries(entries: Seq<(TenantShardId, TenantSlot)>) -> Seq<TenantShardId>
    decreases entries.len(),
{
    if entries.len() == 0 {
        Seq::empty()
    } else {
        let front = live_secondaries(entries.drop_last());
        match entries.last().1 {
            TenantSlot::Secondary(s) => if !s.cancelled {
                front.push(entries.last().0)
            } else {
                front
            },
            _ => front,
        }
    }
}

/// The attached shards with their states and generations, in order.
pub open spec fn attached_shards(entries: Seq<(TenantShardId, TenantSlot)>) -> Seq<
    (TenantShardId, TenantState, Generation),
>
    decreases entries.len(),
{
    if entries.len() == 0 {
        Seq::empty()
    } else {
        let front = attached_shards(entries.drop_last());
        match entries.last().1 {
            TenantSlot::Attached(t) => front.push((entries.last().0, t.state, t.generation)),
            _ => front,
        }
    }
}

/// The entries of the map.
fn entries_of(tenants: &TenantsMap) -> (r: Option<&Vec<(TenantShardId, TenantSlot)>>)
    ensures
        match r {
            Some(entries) => entries@ == tenants.ordered() && !(*tenants is Initializing),
            None => *tenants is Initializing && tenants.ordered().len() == 0,
        },
{
    match tenants {
        TenantsMap::Initializing => None,
        TenantsMap::Open(m) => Some(&m.entries),
        TenantsMap::ShuttingDown(m) => Some(&m.entries),
    }
}

/// The tenants of the page server.
pub struct TenantManager {
    pub tenants: TenantsMap,
}

impl TenantManager {
    /// The attached tenant of a slot; with `active_only` only one that is ready for operations.
    pub fn get_attached_tenant_shard(&self, tenant_shard_id: TenantShardId, active_only: bool) -> (r:
        Result<&Tenant, GetTenantError>)
        requires
            self.tenants.wf(),
        ensures
            match lookup(self.tenants, tenant_shard_id, active_only) {
                Ok(t) => r matches Ok(found) && *found == t,
                Err(e) => r == Err::<&Tenant, GetTenantError>(e),
            },
    {
        get_tenant(&self.tenants, tenant_shard_id, active_only)
    }

    /// The secondary tenant of a slot.
    pub fn get_secondary_tenant_shard(&self, tenant_shard_id: TenantShardId) -> (r: Option<
        &SecondaryTenant,
    >)
        requires
            self.tenants.wf(),
        ensures
            match r {
                Some(s) => tenant_map::peeked(self.tenants, tenant_shard_id, TenantSlotPeekMode::Read)
                    == Ok::<Option<TenantSlot>, TenantMapError>(Some(TenantSlot::Secondary(*s))),
                None => !(tenant_map::peeked(
                    self.tenants,
                    tenant_shard_id,
                    TenantSlotPeekMode::Read,
                ) matches Ok(Some(TenantSlot::Secondary(_)))),
            },
    {
        match tenant_map::tenant_map_peek_slot(&self.tenants, &tenant_shard_id, TenantSlotPeekMode::Read) {
            Ok(Some(TenantSlot::Secondary(s))) => Some(s),
            _ => None,
        }
    }

    /// Whether the map has a slot for the shard, in any state.
    pub fn manages_tenant_shard(&self, tenant_shard_id: TenantShardId) -> (r: bool)
        requires
            self.tenants.wf(),
        ensures
            r == self.tenants.slots().dom().contains(tenant_shard_id),
    {
        match tenant_map::tenant_map_peek_slot(&self.tenants, &tenant_shard_id, TenantSlotPeekMode::Read) {
            Ok(Some(_)) => true,
            _ => false,
        }
    }

    /// The shards whose tenants are attached and active.
    pub fn get_attached_active_tenant_shards(&self) -> (r: Vec<TenantShardId>)
        ensures
            r@ == active_shards(self.tenants.ordered()),
    {
        let mut r: Vec<TenantShardId> = Vec::new();
        if let Some(entries) = entries_of(&self.tenants) {
            let mut i: usize = 0;
            assert(entries@.take(0).len() == 0);
            while i < entries.len()
                invariant
                    i <= entries@.len(),
                    r@ == active_shards(entries@.take(i as int)),
                decreases entries@.len() - i,
            {
                assert(entries@.take(i + 1).drop_last() =~= entries@.take(i as int));
                if let TenantSlot::Attached(t) = &entries[i].1 {
                    if let TenantState::Active = t.state {
                        r.push(entries[i].0);
                    }
                }
                i += 1;
            }
            assert(entries@.take(i as int) =~= entries@);
        }
        r
    }

    /// The shards in secondary mode on which work may be done: none unless the map is open.
    pub fn secondary_tenants(&self) -> (r: Vec<TenantShardId>)
        ensures
            r@ == if self.tenants is Open {
                live_secondaries(self.tenants.ordered())
            } else {
                Seq::empty()
            },
    {
        let mut r: Vec<TenantShardId> = Vec::new();
        if let TenantsMap::Open(m) = &self.tenants {
            let mut i: usize = 0;
            assert(m.entries@.take(0).len() == 0);
            while i < m.entries.len()
                invariant
                    i <= m.entries@.len(),
                    r@ == live_secondaries(m.entries@.take(i as int)),
                decreases m.entries@.len() - i,
            {
                assert(m.entries@.take(i + 1).drop_last() =~= m.entries@.take(i as int));
                if let TenantSlot::Secondary(s) = &m.entries[i].1 {
                    if !s.cancelled {
                        r.push(m.entries[i].0);
                    }
                }
                i += 1;
            }
            assert(m.entries@.take(i as int) =~= m.entries@);
        }
        r
    }

    /// All slots: attached, secondary and in progress.
    pub fn list<'a>(&'a self) -> (r: Vec<(TenantShardId, &'a TenantSlot)>)
        ensures
            r@.len() == self.tenants.ordered().len(),
            forall|i: int|
                0 <= i < r@.len() ==> (#[trigger] r@[i]).0 == self.tenants.ordered()[i].0 && *r@[i].1
                    == self.tenants.ordered()[i].1,
    {
        let mut r: Vec<(TenantShardId, &'a TenantSlot)> = Vec::new();
        if let Some(entries) = entries_of(&self.tenants) {
            let mut i: usize = 0;
            while i < entries.len()
                invariant
                    i <= entries@.len(),
                    entries@ == self.tenants.ordered(),
                    r@.len() == i,
                    forall|j: int|
                        0 <= j < i ==> (#[trigger] r@[j]).0 == entries@[j].0 && *r@[j].1
                            == entries@[j].1,
                decreases entries@.len() - i,
            {
                r.push((entries[i].0, &entries[i].1));
                i += 1;
            }
        }
        r
    }
}

/// The map is still being filled.
#[derive(Clone, Copy, Debug, PartialEq, Eq, Structural)]
pub struct StillInitializing;

/// The attached tenants with their states and generations.
pub fn list_tenants(tenants: &TenantsMap) -> (r: Result<
    Vec<(TenantShardId, TenantState, Generation)>,
    StillInitializing,
>)
    ensures
        match r {
            Ok(list) => !(*tenants is Initializing) && list@ == attached_shards(tenants.ordered()),
            Err(_) => *tenants is Initializing,
        },
{
    let entries = match entries_of(tenants) {
        Some(entries) => entries,
        None => {
            return Err(StillInitializing);
        },
    };
    let mut r: Vec<(TenantShardId, TenantState, Generation)> = Vec::new();
    let mut i: usize = 0;
    assert(entries@.take(0).len() == 0);
    while i < entries.len()
        invariant
            i <= entries@.len(),
            r@ == attached_shards(entries@.take(i as int)),
        decreases entries@.len() - i,
    {
        assert(entries@.take(i + 1).drop_last() =~= entries@.take(i as int));
        if let TenantSlot::Attached(t) = &entries[i].1 {
            r.push((entries[i].0, t.state.clone(), t.generation));
        }
        i += 1;
    }
    assert(entries@.take(i as int) =~= entries@);
    Ok(r)
}

/// What the shutdown of the page server has to wait for.
pub enum ShutdownStart {
    /// There were no tenants yet.
    NoTenants,
    /// Shut the attached tenants down, tell the secondary ones to stop, and wait for the
    /// attached tenants and for the barriers.
    Wait { attached: Vec<u64>, secondary: Vec<u64>, barriers: Vec<u64> },
    /// Shutdown had begun before; this is a mistake of the caller.
    AlreadyShuttingDown,
}

/// What becomes of a slot when the page server shuts down.
pub open spec fn stopped(slot: TenantSlot) -> TenantSlot {
    match slot {
        TenantSlot::Secondary(s) => TenantSlot::Secondary(SecondaryTenant { cancelled: true, ..s }),
        _ => slot,
    }
}

/// The entries that stay in the map when the page server shuts down: all but those that
/// are being changed.
pub open spec fn staying(entries: Seq<(TenantShardId, TenantSlot)>) -> Seq<
    (TenantShardId, TenantSlot),
>
    decreases entries.len(),
{
    if entries.len() == 0 {
        Seq::empty()
    } else {
        let front = staying(entries.drop_last());
        if entries.last().1 is InProgress {
            front
        } else {
            front.push((entries.last().0, stopped(entries.last().1)))
        }
    }
}

/// The handles of the attached tenants, in order.
pub open spec fn attached_handles(entries: Seq<(TenantShardId, TenantSlot)>) -> Seq<u64>
    decreases entries.len(),
{
    if entries.len() == 0 {
        Seq::empty()
    } else {
        let front = attached_handles(entries.drop_last());
        match entries.last().1 {
            TenantSlot::Attached(t) => front.push(t.handle),
            _ => front,
        }
    }
}

/// The handles of the secondary tenants, in order.
pub open spec fn secondary_handles(entries: Seq<(TenantShardId, TenantSlot)>) -> Seq<u64>
    decreases entries.len(),
{
    if entries.len() == 0 {
        Seq::empty()
    } else {
        let front = secondary_handles(entries.drop_last());
        match entries.last().1 {
            TenantSlot::Secondary(s) => front.push(s.handle),
            _ => front,
        }
    }
}

/// The barriers of the slots that are being changed, in order.
pub open spec fn pending_barriers(entries: Seq<(TenantShardId, TenantSlot)>) -> Seq<u64>
    decreases entries.len(),
{
    if entries.len() == 0 {
        Seq::empty()
    } else {
        let front = pending_barriers(entries.drop_last());
        match entries.last().1 {
            TenantSlot::InProgress(b) => front.push(b),
            _ => front,
        }
    }
}

/// The entries that stay are in order.
proof fn lemma_staying_ascending(entries: Seq<(TenantShardId, TenantSlot)>)
    requires
        ordered_map::ascending(entries),
    ensures
        ordered_map::ascending(staying(entries)),
        entries.len() > 0 ==> forall|i: int|
            0 <= i < staying(entries).len() ==> (#[trigger] staying(entries)[i]).0.rank()
                <= entries.last().0.rank(),
        entries.len() == 0 ==> staying(entries).len() == 0,
    decreases entries.len(),
{
    if entries.len() > 0 {
        let front = entries.drop_last();
        lemma_staying_ascending(front);
        if front.len() > 0 {
            assert(front.last().0.rank() < entries.last().0.rank());
        }
    }
}

/// Which slots stay, and with what in them.
pub proof fn shutdown_keeps_settled_slots(
    entries: Seq<(TenantShardId, TenantSlot)>,
    id: TenantShardId,
)
    requires
        ordered_map::ascending(entries),
    ensures
        ordered_map::has_key(staying(entries), id) <==> exists|i: int|
            0 <= i < entries.len() && (#[trigger] entries[i]).0 == id && !(entries[i].1 is InProgress),
        forall|i: int, j: int|
            0 <= i < entries.len() && 0 <= j < staying(entries).len() && (
            #[trigger] entries[i]).0 == (#[trigger] staying(entries)[j]).0 ==> staying(entries)[j].1
                == stopped(entries[i].1),
    decreases entries.len(),
{
    if entries.len() > 0 {
        let front = entries.drop_last();
        let n = entries.len() - 1;
        shutdown_keeps_settled_slots(front, id);
        lemma_staying_ascending(front);
        let kept = staying(entries);
        let kept_front = staying(front);
        assert forall|i: int| 0 <= i < front.len() implies front[i] == entries[i] by {}
        assert forall|j: int| 0 <= j < kept_front.len() implies kept[j] == kept_front[j]
            && kept_front[j].0 != entries[n].0 by {
            if front.len() > 0 {
                assert(front.last().0.rank() < entries[n].0.rank());
            }
        }
        if exists|i: int|
            0 <= i < entries.len() && (#[trigger] entries[i]).0 == id && !(entries[i].1 is InProgress) {
            let i = choose|i: int|
                0 <= i < entries.len() && (#[trigger] entries[i]).0 == id && !(
                entries[i].1 is InProgress);
            if i == n {
                assert(kept[kept.len() - 1].0 == id);
            } else {
                assert(front[i].0 == id);
                let j = ordered_map::key_index(kept_front, id);
                assert(kept_front[j].0 == id);
                assert(kept[j].0 == id);
            }
        }
        if ordered_map::has_key(kept, id) {
            let j = ordered_map::key_index(kept, id);
            assert(kept[j].0 == id);
            if j < kept_front.len() {
                assert(kept_front[j].0 == id);
                let i = choose|i: int|
                    0 <= i < front.len() && (#[trigger] front[i]).0 == id && !(
                    front[i].1 is InProgress);
                assert(entries[i].0 == id);
            } else {
                assert(entries[n].0 == id);
            }
        }
        assert forall|i: int, j: int|
            0 <= i < entries.len() && 0 <= j < kept.len() && (#[trigger] entries[i]).0 == (
            #[trigger] kept[j]).0 implies kept[j].1 == stopped(entries[i].1) by {
            if j < kept_front.len() {
                assert(kept[j] == kept_front[j]);
                if i < n {
                    assert(front[i].0 == kept_front[j].0);
                }
            } else if i < n {
                assert(entries[i].0.rank() < entries[n].0.rank());
            }
        }
    }
}

/// Begins the shutdown of the page server: no tenant can be added any more.  The tenants
/// stay accessible, except those that are being changed, which are waited for.
pub fn shutdown_all_tenants(tenants: &mut TenantsMap) -> (r: ShutdownStart)
    requires
        old(tenants).wf(),
    ensures
        final(tenants).wf(),
        final(tenants).is_shutting_down(),
        match *old(tenants) {
            TenantsMap::Initializing => r is NoTenants && final(tenants).ordered().len() == 0,
            TenantsMap::ShuttingDown(_) => r is AlreadyShuttingDown && final(tenants).ordered()
                == old(tenants).ordered(),
            TenantsMap::Open(_) => {
                &&& final(tenants).ordered() == staying(old(tenants).ordered())
                &&& r matches ShutdownStart::Wait { attached, secondary, barriers }
                &&& attached@ == attached_handles(old(tenants).ordered())
                &&& secondary@ == secondary_handles(old(tenants).ordered())
                &&& barriers@ == pending_barriers(old(tenants).ordered())
            },
        },
{
    let mut taken = TenantsMap::Initializing;
    std::mem::swap(&mut taken, tenants);
    match taken {
        TenantsMap::Initializing => {
            *tenants = TenantsMap::ShuttingDown(OrderedMap::new());
            ShutdownStart::NoTenants
        },
        TenantsMap::ShuttingDown(m) => {
            *tenants = TenantsMap::ShuttingDown(m);
            ShutdownStart::AlreadyShuttingDown
        },
        TenantsMap::Open(m) => {
            let mut attached: Vec<u64> = Vec::new();
            let mut secondary: Vec<u64> = Vec::new();
            let mut barriers: Vec<u64> = Vec::new();
            let mut kept: Vec<(TenantShardId, TenantSlot)> = Vec::new();
            let mut rest = m.entries;
            let ghost all = rest@;
            let ghost mut n: int = 0;
            assert(all.take(0).len() == 0);
            assert(all.skip(0) =~= all);
            while rest.len() > 0
                invariant
                    0 <= n <= all.len(),
                    rest@ == all.skip(n),
                    kept@ == staying(all.take(n)),
                    attached@ == attached_handles(all.take(n)),
                    secondary@ == secondary_handles(all.take(n)),
                    barriers@ == pending_barriers(all.take(n)),
                decreases rest@.len(),
            {
                assert(all.take(n + 1).drop_last() =~= all.take(n));
                assert(all.take(n + 1).last() == rest@[0]);
                let (id, slot) = rest.remove(0);
                assert(rest@ =~= all.skip(n + 1));
                match slot {
                    TenantSlot::Attached(t) => {
                        attached.push(t.handle);
                        kept.push((id, TenantSlot::Attached(t)));
                    },
                    TenantSlot::Secondary(s) => {
                        secondary.push(s.handle);
                        kept.push((id, TenantSlot::Secondary(SecondaryTenant { cancelled: true, ..s })));
                    },
                    TenantSlot::InProgress(barrier) => {
                        barriers.push(barrier);
                    },
                }
                proof {
                    n = n + 1;
                }
            }
            assert(all.take(n) =~= all);
            proof {
                lemma_staying_ascending(all);
            }
            *tenants = TenantsMap::ShuttingDown(OrderedMap { entries: kept });
            ShutdownStart::Wait { attached, secondary, barriers }
        },
    }
}

/// How a task that shutdown waited for has ended.
#[derive(Clone, Copy, Debug, PartialEq, Eq, Structural)]
pub enum TaskEnd {
    Done,
    Panicked,
    Unknown,
}

/// What the caller does while it waits for the shutdown of the tenants.
#[derive(Clone, Copy, Debug, PartialEq, Eq, Structural)]
pub enum WaitAction {
    /// Go on waiting.
    Wait,
    /// Start the timer again and go on waiting.
    RestartTimer,
    /// Report how many tasks are left and go on waiting.
    Report { remaining: usize },
    /// All tasks have ended; this many of them in a panic.
    Finished { panicked: usize },
}

/// The wait for the shutdown of the tenants.  Progress is reported at most once per timer
/// period, and only when the timer has run since the latest task ended.
#[derive(Clone, Copy, Debug, PartialEq, Eq, Structural)]
pub struct ShutdownWait {
    pub total: usize,
    pub remaining: usize,
    pub panicked: usize,
    /// Whether the timer is running.
    pub buffering: bool,
}

impl ShutdownWait {
    /// No more tasks are counted than there are.
    pub open spec fn wf(self) -> bool {
        self.remaining + self.panicked <= self.total
    }

    /// The wait for `total` tasks, with the timer running.
    pub fn new(total: usize) -> (r: ShutdownWait)
        ensures
            r.wf(),
            r == (ShutdownWait { total, remaining: total, panicked: 0, buffering: true }),
    {
        ShutdownWait { total, remaining: total, panicked: 0, buffering: true }
    }

    /// Takes the end of a task into account.
    pub fn task_ended(&mut self, end: TaskEnd) -> (r: WaitAction)
        requires
            old(self).wf(),
            old(self).remaining > 0,
        ensures
            final(self).wf(),
            final(self).total == old(self).total,
            final(self).remaining == old(self).remaining - 1,
            final(self).panicked == old(self).panicked + if end == TaskEnd::Panicked {
                1int
            } else {
                0
            },
            final(self).buffering,
            r == if final(self).remaining == 0 {
                WaitAction::Finished { panicked: final(self).panicked }
            } else if old(self).buffering {
                WaitAction::Wait
            } else {
                WaitAction::RestartTimer
            },
    {
        self.remaining = self.remaining - 1;
        if let TaskEnd::Panicked = end {
            self.panicked = self.panicked + 1;
        }
        let was_buffering = self.buffering;
        self.buffering = true;
        if self.remaining == 0 {
            WaitAction::Finished { panicked: self.panicked }
        } else if was_buffering {
            WaitAction::Wait
        } else {
            WaitAction::RestartTimer
        }
    }

    /// Takes the running out of the timer into account.
    pub fn timer_fired(&mut self) -> (r: WaitAction)
        requires
            old(self).buffering,
        ensures
            *final(self) == (ShutdownWait { buffering: false, ..*old(self) }),
            r == (WaitAction::Report { remaining: old(self).remaining }),
    {
        self.buffering = false;
        WaitAction::Report { remaining: self.remaining }
    }
}

/// Why no active tenant was found.
pub enum GetActiveTenantError {
    WaitForActiveTimeout { latest_state: Option<TenantState> },
    NotFound(GetTenantError),
    Cancelled,
    WillNotBecomeActive(TenantState),
}

/// What to do to get an active tenant.
#[derive(Clone, Copy, Debug, PartialEq, Eq, Structural)]
pub enum ActiveTenant {
    /// The tenant with this handle is active.
    Ready { handle: u64 },
    /// Hurry the tenant with this handle and wait until it is active.
    ActivateAndWait { handle: u64 },
    /// Wait until the slot of this shard has been changed.
    WaitForBarrier { barrier: u64, tenant_shard_id: TenantShardId },
}

/// What to do to get an active tenant, by the shard that was resolved.
pub open spec fn active_tenant_step(
    tenants: TenantsMap,
    tenant_id: TenantId,
    selector: ShardSelector,
) -> Result<ActiveTenant, GetTenantError> {
    match tenant_map::first_match(tenants.ordered(), tenant_id, selector, 0) {
        None => Err(GetTenantError::NotFound(tenant_id)),
        Some(id) => match tenant_map::peeked(tenants, id, TenantSlotPeekMode::Read) {
            Err(e) => Err(GetTenantError::MapState(e)),
            Ok(Some(TenantSlot::Attached(t))) => Ok(
                if t.state is Active {
                    ActiveTenant::Ready { handle: t.handle }
                } else {
                    ActiveTenant::ActivateAndWait { handle: t.handle }
                },
            ),
            Ok(Some(TenantSlot::Secondary(_))) => Err(GetTenantError::NotActive(id)),
            Ok(Some(TenantSlot::InProgress(barrier))) => Ok(
                ActiveTenant::WaitForBarrier { barrier, tenant_shard_id: id },
            ),
            Ok(None) => Err(GetTenantError::NotFound(tenant_id)),
        },
    }
}

/// Begins to get a tenant in its active state.
pub fn get_active_tenant(tenants: &TenantsMap, tenant_id: TenantId, selector: ShardSelector) -> (r:
    Result<ActiveTenant, GetTenantError>)
    requires
        tenants.wf(),
    ensures
        r == active_tenant_step(*tenants, tenant_id, selector),
{
    let tenant_shard_id = match tenants.resolve_attached_shard(&tenant_id, selector) {
        Some(id) => id,
        None => {
            return Err(GetTenantError::NotFound(tenant_id));
        },
    };
    match tenant_map::tenant_map_peek_slot(tenants, &tenant_shard_id, TenantSlotPeekMode::Read) {
        Err(e) => Err(GetTenantError::MapState(e)),
        Ok(Some(TenantSlot::Attached(tenant))) => match tenant.state {
            TenantState::Active => Ok(ActiveTenant::Ready { handle: tenant.handle }),
            _ => Ok(ActiveTenant::ActivateAndWait { handle: tenant.handle }),
        },
        Ok(Some(TenantSlot::Secondary(_))) => Err(GetTenantError::NotActive(tenant_shard_id)),
        Ok(Some(TenantSlot::InProgress(barrier))) => Ok(
            ActiveTenant::WaitForBarrier { barrier: *barrier, tenant_shard_id },
        ),
        Ok(None) => Err(GetTenantError::NotFound(tenant_id)),
    }
}

/// How a wait with a deadline has ended.
#[derive(Clone, Copy, Debug, PartialEq, Eq, Structural)]
pub enum WaitEnd {
    Done,
    Timeout,
    Cancelled,
}

/// After the wait for a slot that was being changed: the tenant that is there now and on
/// which to wait.
pub fn after_barrier(tenants: &TenantsMap, tenant_shard_id: TenantShardId, end: WaitEnd) -> (r:
    Result<u64, GetActiveTenantError>)
    requires
        tenants.wf(),
    ensures
        r == match end {
            WaitEnd::Timeout => Err(
                GetActiveTenantError::WaitForActiveTimeout { latest_state: None },
            ),
            WaitEnd::Cancelled => Err(GetActiveTenantError::Cancelled),
            WaitEnd::Done => match tenant_map::peeked(
                *tenants,
                tenant_shard_id,
                TenantSlotPeekMode::Read,
            ) {
                Err(e) => Err(GetActiveTenantError::NotFound(GetTenantError::MapState(e))),
                Ok(Some(TenantSlot::Attached(t))) => Ok(t.handle),
                Ok(_) => Err(
                    GetActiveTenantError::NotFound(GetTenantError::NotActive(tenant_shard_id)),
                ),
            },
        },
{
    match end {
        WaitEnd::Timeout => {
            return Err(GetActiveTenantError::WaitForActiveTimeout { latest_state: None });
        },
        WaitEnd::Cancelled => {
            return Err(GetActiveTenantError::Cancelled);
        },
        WaitEnd::Done => {},
    }
    match tenant_map::tenant_map_peek_slot(tenants, &tenant_shard_id, TenantSlotPeekMode::Read) {
        Err(e) => Err(GetActiveTenantError::NotFound(GetTenantError::MapState(e))),
        Ok(Some(TenantSlot::Attached(tenant))) => Ok(tenant.handle),
        Ok(_) => Err(GetActiveTenantError::NotFound(GetTenantError::NotActive(tenant_shard_id))),
    }
}

/// A resolved shard is attached, so an active tenant is never refused for being secondary
/// or absent, and no barrier has to be waited for.
pub proof fn resolved_shards_are_attached(
    entries: Seq<(TenantShardId, TenantSlot)>,
    tenant_id: TenantId,
    selector: ShardSelector,
    from: int,
)
    requires
        0 <= from,
    ensures
        tenant_map::first_match(entries, tenant_id, selector, from) matches Some(id)
            ==> id.tenant_id == tenant_id && exists|i: int|
            from <= i < entries.len() && (#[trigger] entries[i]).0 == id && (
            entries[i].1 matches TenantSlot::Attached(t) && tenant_map::selector_fits(
                selector,
                id,
                t,
            )),
    decreases entries.len() - from,
{
    if from < entries.len() {
        resolved_shards_are_attached(entries, tenant_id, selector, from + 1);
        if tenant_map::first_match(entries, tenant_id, selector, from) == Some(entries[from].0) {
            assert(entries[from].0 == entries[from].0);
        }
    }
}

/// A second shutdown finds nothing to do.
pub proof fn shutdown_settles(entries: Seq<(TenantShardId, TenantSlot)>)
    ensures
        staying(staying(entries)) == staying(entries),
        pending_barriers(staying(entries)).len() == 0,
    decreases entries.len(),
{
    if entries.len() > 0 {
        let front = entries.drop_last();
        shutdown_settles(front);
        if !(entries.last().1 is InProgress) {
            let kept = staying(entries);
            assert(kept.drop_last() =~= staying(front));
        }
    }
}

/// Slot by slot, in their order, a shard is listed as active exactly if it is attached in the active
/// state.
pub proof fn active_shards_are_listed(
    a: Seq<(TenantShardId, TenantSlot)>,
    b: Seq<(TenantShardId, TenantSlot)>,
    e: (TenantShardId, TenantSlot),
)
    ensures
        active_shards(a + b) == active_shards(a) + active_shards(b),
        active_shards(seq![e]) == if e.1 is Attached && e.1->Attached_0.state is Active {
            seq![e.0]
        } else {
            Seq::<TenantShardId>::empty()
        },
        active_shards(Seq::<(TenantShardId, TenantSlot)>::empty()) == Seq::<TenantShardId>::empty(),
    decreases b.len(),
{
    reveal_with_fuel(active_shards, 2);
    assert(seq![e].drop_last() =~= Seq::<(TenantShardId, TenantSlot)>::empty());
    assert(active_shards(seq![e]) =~= if e.1 is Attached && e.1->Attached_0.state is Active {
            seq![e.0]
        } else {
            Seq::<TenantShardId>::empty()
        });
    if b.len() > 0 {
        active_shards_are_listed(a, b.drop_last(), e);
        assert((a + b).drop_last() =~= a + b.drop_last());
        assert((a + b).last() == b.last());
        assert(active_shards(a + b) =~= active_shards(a) + active_shards(b));
    } else {
        assert(a + b =~= a);
        assert(active_shards(a) + active_shards(b) =~= active_shards(a));
    }
}

/// Slot by slot, in their order, a shard is listed as a live secondary exactly if it is secondary and
/// has not been cancelled.
pub proof fn live_secondaries_are_listed(
    a: Seq<(TenantShardId, TenantSlot)>,
    b: Seq<(TenantShardId, TenantSlot)>,
    e: (TenantShardId, TenantSlot),
)
    ensures
        live_secondaries(a + b) == live_secondaries(a) + live_secondaries(b),
        live_secondaries(seq![e]) == if e.1 is Secondary && !e.1->Secondary_0.cancelled {
            seq![e.0]
        } else {
            Seq::<TenantShardId>::empty()
        },
        live_secondaries(Seq::<(TenantShardId, TenantSlot)>::empty()) == Seq::<TenantShardId>::empty(),
    decreases b.len(),
{
    reveal_with_fuel(live_secondaries, 2);
    assert(seq![e].drop_last() =~= Seq::<(TenantShardId, TenantSlot)>::empty());
    assert(live_secondaries(seq![e]) =~= if e.1 is Secondary && !e.1->Secondary_0.cancelled {
            seq![e.0]
        } else {
            Seq::<TenantShardId>::empty()
        });
    if b.len() > 0 {
        live_secondaries_are_listed(a, b.drop_last(), e);
        assert((a + b).drop_last() =~= a + b.drop_last());
        assert((a + b).last() == b.last());
        assert(live_secondaries(a + b) =~= live_secondaries(a) + live_secondaries(b));
    } else {
        assert(a + b =~= a);
        assert(live_secondaries(a) + live_secondaries(b) =~= live_secondaries(a));
    }
}

/// Slot by slot, in their order, every attached shard is listed, with its state and generation.
pub proof fn attached_shards_are_listed(
    a: Seq<(TenantShardId, TenantSlot)>,
    b: Seq<(TenantShardId, TenantSlot)>,
    e: (TenantShardId, TenantSlot),
)
    ensures
        attached_shards(a + b) == attached_shards(a) + attached_shards(b),
        attached_shards(seq![e]) == if e.1 is Attached {
            seq![(e.0, e.1->Attached_0.state, e.1->Attached_0.generation)]
        } else {
            Seq::<(TenantShardId, TenantState, Generation)>::empty()
        },
        attached_shards(Seq::<(TenantShardId, TenantSlot)>::empty()) == Seq::<(TenantShardId, TenantState, Generation)>::empty(),
    decreases b.len(),
{
    reveal_with_fuel(attached_shards, 2);
    assert(seq![e].drop_last() =~= Seq::<(TenantShardId, TenantSlot)>::empty());
    assert(attached_shards(seq![e]) =~= if e.1 is Attached {
            seq![(e.0, e.1->Attached_0.state, e.1->Attached_0.generation)]
        } else {
            Seq::<(TenantShardId, TenantState, Generation)>::empty()
        });
    if b.len() > 0 {
        attached_shards_are_listed(a, b.drop_last(), e);
        assert((a + b).drop_last() =~= a + b.drop_last());
        assert((a + b).last() == b.last());
        assert(attached_shards(a + b) =~= attached_shards(a) + attached_shards(b));
    } else {
        assert(a + b =~= a);
        assert(attached_shards(a) + attached_shards(b) =~= attached_shards(a));
    }
}

/// At shutdown every attached tenant is shut down.
pub proof fn attached_tenants_are_shut_down(
    a: Seq<(TenantShardId, TenantSlot)>,
    b: Seq<(TenantShardId, TenantSlot)>,
    e: (TenantShardId, TenantSlot),
)
    ensures
        attached_handles(a + b) == attached_handles(a) + attached_handles(b),
        attached_handles(seq![e]) == if e.1 is Attached {
            seq![e.1->Attached_0.handle]
        } else {
            Seq::<u64>::empty()
        },
        attached_handles(Seq::<(TenantShardId, TenantSlot)>::empty()) == Seq::<u64>::empty(),
    decreases b.len(),
{
    reveal_with_fuel(attached_handles, 2);
    assert(seq![e].drop_last() =~= Seq::<(TenantShardId, TenantSlot)>::empty());
    assert(attached_handles(seq![e]) =~= if e.1 is Attached {
            seq![e.1->Attached_0.handle]
        } else {
            Seq::<u64>::empty()
        });
    if b.len() > 0 {
        attached_tenants_are_shut_down(a, b.drop_last(), e);
        assert((a + b).drop_last() =~= a + b.drop_last());
        assert((a + b).last() == b.last());
        assert(attached_handles(a + b) =~= attached_handles(a) + attached_handles(b));
    } else {
        assert(a + b =~= a);
        assert(attached_handles(a) + attached_handles(b) =~= attached_handles(a));
    }
}

/// At shutdown every secondary tenant is shut down.
pub proof fn secondary_tenants_are_shut_down(
    a: Seq<(TenantShardId, TenantSlot)>,
    b: Seq<(TenantShardId, TenantSlot)>,
    e: (TenantShardId, TenantSlot),
)
    ensures
        secondary_handles(a + b) == secondary_handles(a) + secondary_handles(b),
        secondary_handles(seq![e]) == if e.1 is Secondary {
            seq![e.1->Secondary_0.handle]
        } else {
            Seq::<u64>::empty()
        },
        secondary_handles(Seq::<(TenantShardId, TenantSlot)>::empty()) == Seq::<u64>::empty(),
    decreases b.len(),
{
    reveal_with_fuel(secondary_handles, 2);
    assert(seq![e].drop_last() =~= Seq::<(TenantShardId, TenantSlot)>::empty());
    assert(secondary_handles(seq![e]) =~= if e.1 is Secondary {
            seq![e.1->Secondary_0.handle]
        } else {
            Seq::<u64>::empty()
        });
    if b.len() > 0 {
        secondary_tenants_are_shut_down(a, b.drop_last(), e);
        assert((a + b).drop_last() =~= a + b.drop_last());
        assert((a + b).last() == b.last());
        assert(secondary_handles(a + b) =~= secondary_handles(a) + secondary_handles(b));
    } else {
        assert(a + b =~= a);
        assert(secondary_handles(a) + secondary_handles(b) =~= secondary_handles(a));
    }
}

/// At shutdown every operation that is under way is waited for.
pub proof fn operations_are_waited_for(
    a: Seq<(TenantShardId, TenantSlot)>,
    b: Seq<(TenantShardId, TenantSlot)>,
    e: (TenantShardId, TenantSlot),
)
    ensures
        pending_barriers(a + b) == pending_barriers(a) + pending_barriers(b),
        pending_barriers(seq![e]) == if e.1 is InProgress {
            seq![e.1->InProgress_0]
        } else {
            Seq::<u64>::empty()
        },
        pending_barriers(Seq::<(TenantShardId, TenantSlot)>::empty()) == Seq::<u64>::empty(),
    decreases b.len(),
{
    reveal_with_fuel(pending_barriers, 2);
    assert(seq![e].drop_last() =~= Seq::<(TenantShardId, TenantSlot)>::empty());
    assert(pending_barriers(seq![e]) =~= if e.1 is InProgress {
            seq![e.1->InProgress_0]
        } else {
            Seq::<u64>::empty()
        });
    if b.len() > 0 {
        operations_are_waited_for(a, b.drop_last(), e);
        assert((a + b).drop_last() =~= a + b.drop_last());
        assert((a + b).last() == b.last());
        assert(pending_barriers(a + b) =~= pending_barriers(a) + pending_barriers(b));
    } else {
        assert(a + b =~= a);
        assert(pending_barriers(a) + pending_barriers(b) =~= pending_barriers(a));
    }
}

/// At shutdown a secondary tenant is cancelled and otherwise stays as it was, as every other
/// tenant does.
pub proof fn secondary_tenants_are_cancelled(slot: TenantSlot)
    ensures
        slot matches TenantSlot::Secondary(s) ==> stopped(slot) == TenantSlot::Secondary(
            SecondaryTenant {
                tenant_shard_id: s.tenant_shard_id,
                shard_identity: s.shard_identity,
                tenant_conf: s.tenant_conf,
                warm: s.warm,
                cancelled: true,
                shut_down: s.shut_down,
                handle: s.handle,
            },
        ),
        !(slot is Secondary) ==> stopped(slot) == slot,
{
}

/// A tenant is found exactly where its slot can be read and holds an attached tenant that is
/// active or need not be; each other case has its error.
pub proof fn tenants_are_found_by_their_slot(
    tenants: TenantsMap,
    id: TenantShardId,
    active_only: bool,
)
    ensures
        ({
            let found = lookup(tenants, id, active_only);
            let known = !(tenants is Initializing) && tenants.slots().dom().contains(id);
            let slot = tenants.slots()[id];
            &&& found is Ok <==> known && slot is Attached && (slot->Attached_0.state is Active
                || !active_only)
            &&& found matches Ok(t) ==> slot == TenantSlot::Attached(t)
            &&& tenants is Initializing ==> found == Err::<Tenant, GetTenantError>(
                GetTenantError::MapState(TenantMapError::StillInitializing),
            )
            &&& tenants is ShuttingDown && !known ==> found == Err::<Tenant, GetTenantError>(
                GetTenantError::MapState(TenantMapError::ShuttingDown),
            )
            &&& tenants is Open && !known ==> found == Err::<Tenant, GetTenantError>(
                GetTenantError::NotFound(id.tenant_id),
            )
            &&& known && slot is Secondary ==> found == Err::<Tenant, GetTenantError>(
                GetTenantError::NotFound(id.tenant_id),
            )
            &&& known && slot is InProgress ==> found == Err::<Tenant, GetTenantError>(
                GetTenantError::NotActive(id),
            )
            &&& known && slot is Attached && active_only ==> match slot->Attached_0.state {
                TenantState::Active => true,
                TenantState::Broken { reason, .. } => found == Err::<Tenant, GetTenantError>(
                    GetTenantError::Broken(reason),
                ),
                _ => found == Err::<Tenant, GetTenantError>(GetTenantError::NotActive(id)),
            }
        }),
{
}

/// A request for a tenant goes to the first of its shards that is attached and that the selector
/// fits; it can begin at once where that shard is active, and waits for it where it is not.
pub proof fn requests_wait_for_their_shard(
    tenants: TenantsMap,
    tenant_id: TenantId,
    selector: ShardSelector,
    id: TenantShardId,
    t: Tenant,
)
    requires
        tenants.wf(),
        tenant_map::first_match(tenants.ordered(), tenant_id, selector, 0) == Some(id),
        tenants.slots().dom().contains(id),
        tenants.slots()[id] == TenantSlot::Attached(t),
    ensures
        active_tenant_step(tenants, tenant_id, selector) == Ok::<ActiveTenant, GetTenantError>(
            if t.state is Active {
                ActiveTenant::Ready { handle: t.handle }
            } else {
                ActiveTenant::ActivateAndWait { handle: t.handle }
            },
        ),
{
}

/// A request for a tenant none of whose shards fits finds nothing.
pub proof fn requests_without_a_shard_find_nothing(
    tenants: TenantsMap,
    tenant_id: TenantId,
    selector: ShardSelector,
)
    requires
        tenant_map::first_match(tenants.ordered(), tenant_id, selector, 0) is None,
    ensures
        active_tenant_step(tenants, tenant_id, selector) == Err::<ActiveTenant, GetTenantError>(
            GetTenantError::NotFound(tenant_id),
        ),
{
}

} // verus!
