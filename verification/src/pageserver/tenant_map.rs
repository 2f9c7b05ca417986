//! The tenants that the page server knows, and the guards that keep operations on one
//! tenant from overlapping.
//!
//! An operation that changes a tenant first acquires its slot: the slot then holds an
//! in-progress marker, and a [`SlotGuard`] holds what was there.  The guard is disposed of
//! by putting a new value into the slot, by putting the old one back, or by releasing the
//! slot.  A tenant that has not been shut down is never lost from its slot.
use vstd::prelude::*;

use crate::base::ordered_map::MapKey;
use crate::base::ordered_map::OrderedMap;
use crate::pageserver::ids::Generation;
use crate::pageserver::ids::ShardIdentity;
use crate::pageserver::ids::ShardNumber;
use crate::pageserver::ids::TenantId;
use crate::pageserver::ids::TenantShardId;
use crate::pageserver::location::TenantConf;

verus! {

/// What a tenant is doing.
#[derive(Debug)]
pub enum TenantState {
    Loading,
    Attaching,
    Activating,
    Active,
    Stopping,
    Broken { reason: String, backtrace: String },
}

impl Clone for TenantState {
    fn clone(&self) -> (r: TenantState)
        ensures
            r == *self,
    {
        match self {
            TenantState::Loading => TenantState::Loading,
            TenantState::Attaching => TenantState::Attaching,
            TenantState::Activating => TenantState::Activating,
            TenantState::Active => TenantState::Active,
            TenantState::Stopping => TenantState::Stopping,
            TenantState::Broken { reason, backtrace } => TenantState::Broken {
                reason: reason.clone(),
                backtrace: backtrace.clone(),
            },
        }
    }
}

/// How an attached location relates to others of the same tenant.
#[derive(Clone, Copy, Debug, PartialEq, Eq, Structural)]
pub enum AttachmentMode {
    /// The only attached location.
    Single,
    /// There may be another one with a newer generation.
    Multi,
    /// There is another one with a newer generation.
    Stale,
}

/// A tenant that serves reads and takes in WAL.
pub struct Tenant {
    pub tenant_shard_id: TenantShardId,
    pub state: TenantState,
    pub generation: Generation,
    pub attach_mode: AttachmentMode,
    pub shard_identity: ShardIdentity,
    /// The settings that it runs with.
    pub tenant_conf: TenantConf,
    /// Whether all its tasks have ended.
    pub shut_down: bool,
    /// By which the tenant's tasks and files are found.
    pub handle: u64,
}

/// A tenant that only keeps a local cache warm.
pub struct SecondaryTenant {
    pub tenant_shard_id: TenantShardId,
    pub shard_identity: ShardIdentity,
    /// The settings that it runs with.
    pub tenant_conf: TenantConf,
    pub warm: bool,
    /// Whether it has been told to stop.
    pub cancelled: bool,
    /// Whether all its tasks have ended.
    pub shut_down: bool,
    /// By which the tenant's tasks and files are found.
    pub handle: u64,
}

/// What a slot of the map holds.
pub enum TenantSlot {
    Attached(Tenant),
    Secondary(SecondaryTenant),
    /// The slot is being changed; the number tells the barrier to wait on.
    InProgress(u64),
}

impl TenantSlot {
    /// Whether the tasks of the tenant have ended.
    pub open spec fn is_shut_down(self) -> bool {
        match self {
            TenantSlot::Attached(t) => t.shut_down,
            TenantSlot::Secondary(s) => s.shut_down,
            TenantSlot::InProgress(_) => true,
        }
    }

    /// The tenant in this slot if attached.
    pub fn get_attached(&self) -> (r: Option<&Tenant>)
        ensures
            match r {
                Some(t) => *self == TenantSlot::Attached(*t),
                None => !(*self is Attached),
            },
    {
        match self {
            TenantSlot::Attached(t) => Some(t),
            TenantSlot::Secondary(_) => None,
            TenantSlot::InProgress(_) => None,
        }
    }
}

/// The tenants known to the page server, and what the page server is doing.
pub enum TenantsMap {
    /// The tenants on disk have not all been loaded.
    Initializing,
    /// Tenants can be added.
    Open(OrderedMap<TenantShardId, TenantSlot>),
    /// Tenants are still accessible, but none can be added.
    ShuttingDown(OrderedMap<TenantShardId, TenantSlot>),
}

/// The outcome of taking a slot out of the map.
pub enum TenantsMapRemoveResult {
    Occupied(TenantSlot),
    Vacant,
    InProgress(u64),
}

/// Which shard of a tenant is looked for.
#[derive(Clone, Copy, Debug, PartialEq, Eq, Structural)]
pub enum ShardSelector {
    /// Shard number zero.
    Zero,
    /// The first one that is attached.
    First,
    /// The one that holds a page: the shard of this number, which the identity of the
    /// first attached shard gives for the page's key.
    Page(ShardNumber),
}

/// Errors from walking the map.
#[derive(Clone, Copy, Debug, PartialEq, Eq, Structural)]
pub enum TenantMapError {
    /// Tried to read while initializing.
    StillInitializing,
    /// Tried to read while shutting down.
    ShuttingDown,
}

impl TenantMapError {
    pub open spec fn message_text(self) -> Seq<char> {
        match self {
            TenantMapError::StillInitializing => "tenant map is still initializing"@,
            TenantMapError::ShuttingDown => "tenant map is shutting down"@,
        }
    }

    /// The error in words.
    pub fn message(&self) -> (r: &'static str)
        ensures
            r@ == self.message_text(),
    {
        match self {
            TenantMapError::StillInitializing => "tenant map is still initializing",
            TenantMapError::ShuttingDown => "tenant map is shutting down",
        }
    }
}

/// Why a slot was not acquired.
pub enum TenantSlotError {
    /// The tenant should have been there.
    NotFound(TenantShardId),
    /// The tenant should not have been there.
    AlreadyExists(TenantShardId, TenantState),
    /// Another operation is changing the tenant.
    InProgress,
    MapState(TenantMapError),
}

/// States that only a defect of the program can lead to.
#[derive(Clone, Copy, Debug, PartialEq, Eq, Structural)]
pub enum SlotBug {
    OldValueNotShutDown,
    UpsertOfInProgress,
    MissingMarker,
    UnexpectedContents,
}

impl SlotBug {
    pub open spec fn message_text(self) -> Seq<char> {
        match self {
            SlotBug::OldValueNotShutDown => "Old TenantSlot value not shut down"@,
            SlotBug::UpsertOfInProgress => "Attempt to upsert an InProgress state"@,
            SlotBug::MissingMarker => "Missing InProgress marker during tenant upsert"@,
            SlotBug::UnexpectedContents => "Unexpected contents of TenantSlot"@,
        }
    }

    /// The state in words.
    pub fn message(&self) -> (r: &'static str)
        ensures
            r@ == self.message_text(),
    {
        match self {
            SlotBug::OldValueNotShutDown => "Old TenantSlot value not shut down",
            SlotBug::UpsertOfInProgress => "Attempt to upsert an InProgress state",
            SlotBug::MissingMarker => "Missing InProgress marker during tenant upsert",
            SlotBug::UnexpectedContents => "Unexpected contents of TenantSlot",
        }
    }
}

/// Why a new value was not put into a slot.
pub enum TenantSlotUpsertError {
    InternalError(SlotBug),
    MapState(TenantMapError),
    /// The value that was to go into the slot, for its owner to shut down, and the guard's
    /// completion, which the owner holds until that is done.
    ShuttingDown(TenantSlot, u64),
}

/// The old value of a slot has not been shut down.
#[derive(Clone, Copy, Debug, PartialEq, Eq, Structural)]
pub struct TenantSlotDropError;

/// How a slot is looked at.
#[derive(Clone, Copy, Debug, PartialEq, Eq, Structural)]
pub enum TenantSlotPeekMode {
    /// Slots can be seen while the page server is shutting down.
    Read,
    /// Looking at a slot while the page server is shutting down is an error.
    Write,
}

/// What is expected of a slot that is acquired.
#[derive(Clone, Copy, Debug, PartialEq, Eq, Structural)]
pub enum TenantSlotAcquireMode {
    Any,
    MustExist,
    MustNotExist,
}

/// The slots of a map.
pub type Slots = Map<TenantShardId, TenantSlot>;

impl TenantsMap {
    /// The entries of the map are in order.
    pub open spec fn wf(self) -> bool {
        match self {
            TenantsMap::Initializing => true,
            TenantsMap::Open(m) => m.wf(),
            TenantsMap::ShuttingDown(m) => m.wf(),
        }
    }

    /// Whether tenants can be added.
    pub open spec fn is_open(self) -> bool {
        self is Open
    }

    /// Whether the page server is shutting down.
    pub open spec fn is_shutting_down(self) -> bool {
        self is ShuttingDown
    }

    /// The slots; none while initializing.
    pub open spec fn slots(self) -> Slots {
        match self {
            TenantsMap::Initializing => Map::empty(),
            TenantsMap::Open(m) => m@,
            TenantsMap::ShuttingDown(m) => m@,
        }
    }

    /// The slots in the order of their identifiers.
    pub open spec fn ordered(self) -> Seq<(TenantShardId, TenantSlot)> {
        match self {
            TenantsMap::Initializing => Seq::empty(),
            TenantsMap::Open(m) => m.entries@,
            TenantsMap::ShuttingDown(m) => m.entries@,
        }
    }

    /// The attached tenant of a slot.  A tenant in secondary mode is none.
    pub fn get(&self, tenant_shard_id: &TenantShardId) -> (r: Option<&Tenant>)
        requires
            self.wf(),
        ensures
            match r {
                Some(t) => self.slots().dom().contains(*tenant_shard_id)
                    && self.slots()[*tenant_shard_id] == TenantSlot::Attached(*t),
                None => !(self.slots().dom().contains(*tenant_shard_id)
                    && self.slots()[*tenant_shard_id] is Attached),
            },
    {
        match self {
            TenantsMap::Initializing => None,
            TenantsMap::Open(m) => match m.get(tenant_shard_id) {
                Some(slot) => slot.get_attached(),
                None => None,
            },
            TenantsMap::ShuttingDown(m) => match m.get(tenant_shard_id) {
                Some(slot) => slot.get_attached(),
                None => None,
            },
        }
    }

    /// The first attached shard of a tenant, whose identity tells which shard holds a page.
    pub fn first_attached_shard(&self, tenant_id: &TenantId) -> (r: Option<TenantShardId>)
        requires
            self.wf(),
        ensures
            r == first_match(self.ordered(), *tenant_id, ShardSelector::First, 0),
    {
        self.resolve_attached_shard(tenant_id, ShardSelector::First)
    }

    /// The shard of a tenant that a client means: the first in the order of the shards that
    /// is attached and that the selector fits.
    pub fn resolve_attached_shard(&self, tenant_id: &TenantId, selector: ShardSelector) -> (r: Option<
        TenantShardId,
    >)
        requires
            self.wf(),
        ensures
            r == first_match(self.ordered(), *tenant_id, selector, 0),
    {
        match self {
            TenantsMap::Initializing => None,
            TenantsMap::Open(m) => resolve_in(m, tenant_id, selector),
            TenantsMap::ShuttingDown(m) => resolve_in(m, tenant_id, selector),
        }
    }

    /// Takes a slot out of the map, unless it is being changed.
    pub fn remove(&mut self, tenant_shard_id: TenantShardId) -> (r: TenantsMapRemoveResult)
        requires
            old(self).wf(),
        ensures
            final(self).wf(),
            final(self).is_shutting_down() == old(self).is_shutting_down(),
            final(self).is_open() == old(self).is_open(),
            match r {
                TenantsMapRemoveResult::Vacant => !old(self).slots().dom().contains(tenant_shard_id)
                    && final(self).slots() == old(self).slots(),
                TenantsMapRemoveResult::InProgress(barrier) => old(self).slots().dom().contains(
                    tenant_shard_id,
                ) && old(self).slots()[tenant_shard_id] == TenantSlot::InProgress(barrier)
                    && final(self).slots() == old(self).slots(),
                TenantsMapRemoveResult::Occupied(slot) => old(self).slots().dom().contains(
                    tenant_shard_id,
                ) && old(self).slots()[tenant_shard_id] == slot && !(slot is InProgress)
                    && final(self).slots() == old(self).slots().remove(tenant_shard_id),
            },
    {
        match self {
            TenantsMap::Initializing => TenantsMapRemoveResult::Vacant,
            TenantsMap::Open(m) => remove_from(m, tenant_shard_id),
            TenantsMap::ShuttingDown(m) => remove_from(m, tenant_shard_id),
        }
    }

    /// The number of slots.
    pub fn len(&self) -> (r: usize)
        ensures
            r == self.ordered().len(),
    {
        match self {
            TenantsMap::Initializing => 0,
            TenantsMap::Open(m) => m.len(),
            TenantsMap::ShuttingDown(m) => m.len(),
        }
    }
}

/// Whether the selector fits an attached shard.
pub open spec fn selector_fits(selector: ShardSelector, id: TenantShardId, tenant: Tenant) -> bool {
    match selector {
        ShardSelector::First => true,
        ShardSelector::Zero => id.shard_number == ShardNumber(0),
        ShardSelector::Page(want) => tenant.shard_identity.number == want,
    }
}

/// The first entry from `from` on that is an attached shard of the tenant which the
/// selector fits.
pub open spec fn first_match(
    entries: Seq<(TenantShardId, TenantSlot)>,
    tenant_id: TenantId,
    selector: ShardSelector,
    from: int,
) -> Option<TenantShardId>
    decreases entries.len() - from,
{
    if from < 0 || from >= entries.len() {
        None
    } else {
        let (id, slot) = entries[from];
        if id.tenant_id == tenant_id && slot is Attached && selector_fits(
            selector,
            id,
            slot->Attached_0,
        ) {
            Some(id)
        } else {
            first_match(entries, tenant_id, selector, from + 1)
        }
    }
}

/// Entries of other tenants are passed over.
proof fn lemma_skip_others(
    entries: Seq<(TenantShardId, TenantSlot)>,
    tenant_id: TenantId,
    selector: ShardSelector,
    from: int,
    to: int,
)
    requires
        0 <= from <= to <= entries.len(),
        forall|i: int| from <= i < to ==> (#[trigger] entries[i]).0.tenant_id != tenant_id,
    ensures
        first_match(entries, tenant_id, selector, from) == first_match(
            entries,
            tenant_id,
            selector,
            to,
        ),
    decreases to - from,
{
    if from < to {
        assert(entries[from].0.tenant_id != tenant_id);
        lemma_skip_others(entries, tenant_id, selector, from + 1, to);
    }
}

/// Looks for a shard among the entries of its tenant.
fn resolve_in(
    m: &OrderedMap<TenantShardId, TenantSlot>,
    tenant_id: &TenantId,
    selector: ShardSelector,
) -> (r: Option<TenantShardId>)
    requires
        m.wf(),
    ensures
        r == first_match(m.entries@, *tenant_id, selector, 0),
{
    let start = m.lower_bound(&TenantShardId::unsharded(*tenant_id));
    proof {
        assert forall|i: int| 0 <= i < start implies (#[trigger] m.entries@[i]).0.tenant_id
            != *tenant_id by {
            assert(m.entries@[i].0.rank() < TenantShardId::unsharded(*tenant_id).rank());
        }
        lemma_skip_others(m.entries@, *tenant_id, selector, 0, start as int);
    }
    let mut i = start;
    while i < m.entries.len()
        invariant
            m.wf(),
            start <= i <= m.entries@.len(),
            forall|j: int|
                start <= j < m.entries@.len() ==> (#[trigger] m.entries@[j]).0.rank()
                    >= TenantShardId::unsharded(*tenant_id).rank(),
            first_match(m.entries@, *tenant_id, selector, 0) == first_match(
                m.entries@,
                *tenant_id,
                selector,
                i as int,
            ),
        decreases m.entries@.len() - i,
    {
        let id = m.entries[i].0;
        if id.tenant_id != *tenant_id {
            proof {
                assert(m.entries@[i as int].0.rank() >= TenantShardId::unsharded(
                    *tenant_id,
                ).rank());
                assert(id.tenant_id.0 > tenant_id.0);
                assert forall|j: int| i <= j < m.entries@.len() implies (
                #[trigger] m.entries@[j]).0.tenant_id != *tenant_id by {
                    if j > i {
                        assert(m.entries@[i as int].0.rank() < m.entries@[j].0.rank());
                    }
                }
                lemma_skip_others(
                    m.entries@,
                    *tenant_id,
                    selector,
                    i as int,
                    m.entries@.len() as int,
                );
            }
            return None;
        }
        if let TenantSlot::Attached(tenant) = &m.entries[i].1 {
            let fits = match selector {
                ShardSelector::First => true,
                ShardSelector::Zero => id.shard_number == ShardNumber(0),
                ShardSelector::Page(want) => tenant.shard_identity.number == want,
            };
            if fits {
                return Some(id);
            }
        }
        i += 1;
    }
    None
}

/// Takes a slot out of the entries, unless it is being changed.
fn remove_from(m: &mut OrderedMap<TenantShardId, TenantSlot>, tenant_shard_id: TenantShardId) -> (r:
    TenantsMapRemoveResult)
    requires
        old(m).wf(),
    ensures
        final(m).wf(),
        match r {
            TenantsMapRemoveResult::Vacant => !old(m)@.dom().contains(tenant_shard_id) && final(m)@
                == old(m)@,
            TenantsMapRemoveResult::InProgress(barrier) => old(m)@.dom().contains(tenant_shard_id)
                && old(m)@[tenant_shard_id] == TenantSlot::InProgress(barrier) && final(m)@
                == old(m)@,
            TenantsMapRemoveResult::Occupied(slot) => old(m)@.dom().contains(tenant_shard_id)
                && old(m)@[tenant_shard_id] == slot && !(slot is InProgress) && final(m)@
                == old(m)@.remove(tenant_shard_id),
        },
{
    if let Some(TenantSlot::InProgress(barrier)) = m.get(&tenant_shard_id) {
        return TenantsMapRemoveResult::InProgress(*barrier);
    }
    match m.remove(&tenant_shard_id) {
        Some(slot) => TenantsMapRemoveResult::Occupied(slot),
        None => {
            assert(m@ =~= old(m)@);
            TenantsMapRemoveResult::Vacant
        },
    }
}

/// What looking at a slot shows.
pub open spec fn peeked(
    tenants: TenantsMap,
    id: TenantShardId,
    mode: TenantSlotPeekMode,
) -> Result<Option<TenantSlot>, TenantMapError> {
    let present = tenants.slots().dom().contains(id);
    match tenants {
        TenantsMap::Initializing => Err(TenantMapError::StillInitializing),
        TenantsMap::ShuttingDown(_) => if mode == TenantSlotPeekMode::Read && present {
            Ok(Some(tenants.slots()[id]))
        } else {
            Err(TenantMapError::ShuttingDown)
        },
        TenantsMap::Open(_) => Ok(
            if present {
                Some(tenants.slots()[id])
            } else {
                None
            },
        ),
    }
}

/// Looks at a slot.  During shutdown absence from the map does not mean that the tenant is
/// gone, so it is reported as shutdown.
pub fn tenant_map_peek_slot<'a>(
    tenants: &'a TenantsMap,
    tenant_shard_id: &TenantShardId,
    mode: TenantSlotPeekMode,
) -> (r: Result<Option<&'a TenantSlot>, TenantMapError>)
    requires
        tenants.wf(),
    ensures
        match peeked(*tenants, *tenant_shard_id, mode) {
            Err(e) => r == Err::<Option<&'a TenantSlot>, TenantMapError>(e),
            Ok(None) => r matches Ok(None),
            Ok(Some(slot)) => r matches Ok(Some(s)) && *s == slot,
        },
{
    match tenants {
        TenantsMap::Initializing => Err(TenantMapError::StillInitializing),
        TenantsMap::ShuttingDown(m) => match mode {
            TenantSlotPeekMode::Read => match m.get(tenant_shard_id) {
                Some(slot) => Ok(Some(slot)),
                None => Err(TenantMapError::ShuttingDown),
            },
            TenantSlotPeekMode::Write => Err(TenantMapError::ShuttingDown),
        },
        TenantsMap::Open(m) => Ok(m.get(tenant_shard_id)),
    }
}

/// Why a slot would not be acquired.
pub enum Refusal {
    MapState(TenantMapError),
    NotFound,
    AlreadyExists,
    InProgress,
}

/// Whether and why acquiring a slot would be refused.
pub open spec fn refusal(
    tenants: TenantsMap,
    id: TenantShardId,
    mode: TenantSlotAcquireMode,
) -> Option<Refusal> {
    match tenants {
        TenantsMap::Initializing => Some(Refusal::MapState(TenantMapError::StillInitializing)),
        TenantsMap::ShuttingDown(_) => Some(Refusal::MapState(TenantMapError::ShuttingDown)),
        TenantsMap::Open(m) => if m@.dom().contains(id) {
            if m@[id] is InProgress {
                Some(Refusal::InProgress)
            } else if mode == TenantSlotAcquireMode::MustNotExist {
                Some(Refusal::AlreadyExists)
            } else {
                None
            }
        } else if mode == TenantSlotAcquireMode::MustExist {
            Some(Refusal::NotFound)
        } else {
            None
        },
    }
}

/// What a slot holds.
pub open spec fn slot_value(slots: Slots, id: TenantShardId) -> Option<TenantSlot> {
    if slots.dom().contains(id) {
        Some(slots[id])
    } else {
        None
    }
}

/// The state that is reported of a tenant which exists against expectation.
pub open spec fn reported_state(state: TenantState, slot: TenantSlot) -> bool {
    match slot {
        TenantSlot::Attached(t) => state == t.state,
        _ => state matches TenantState::Broken { reason, backtrace } && reason@
            == "Present but not attached"@ && backtrace@ == ""@,
    }
}

/// Whether an error tells why a slot was not acquired.
pub open spec fn error_tells(
    e: TenantSlotError,
    why: Refusal,
    id: TenantShardId,
    slots: Slots,
) -> bool {
    match why {
        Refusal::MapState(s) => e == TenantSlotError::MapState(s),
        Refusal::NotFound => e == TenantSlotError::NotFound(id),
        Refusal::InProgress => e == TenantSlotError::InProgress,
        Refusal::AlreadyExists => e matches TenantSlotError::AlreadyExists(existing, state)
            && existing == id && reported_state(state, slots[id]),
    }
}

/// Guards the contents of a slot.  While it exists the map holds an in-progress marker.
pub struct SlotGuard {
    pub tenant_shard_id: TenantShardId,
    pub old_value: Option<TenantSlot>,
    pub upserted: bool,
    /// Releases those who wait on the marker's barrier when the guard is gone.
    pub completion: u64,
}

/// Acquires a slot: puts an in-progress marker with `barrier` into it.
pub fn tenant_map_acquire_slot(
    tenant_shard_id: &TenantShardId,
    tenants: &mut TenantsMap,
    mode: TenantSlotAcquireMode,
    barrier: u64,
    completion: u64,
) -> (r: Result<SlotGuard, TenantSlotError>)
    requires
        old(tenants).wf(),
    ensures
        final(tenants).wf(),
        final(tenants).is_open() == old(tenants).is_open(),
        final(tenants).is_shutting_down() == old(tenants).is_shutting_down(),
        match refusal(*old(tenants), *tenant_shard_id, mode) {
            None => {
                &&& r matches Ok(guard)
                &&& guard.wf()
                &&& guard.tenant_shard_id == *tenant_shard_id
                &&& guard.old_value == slot_value(old(tenants).slots(), *tenant_shard_id)
                &&& !guard.upserted
                &&& guard.completion == completion
                &&& final(tenants).slots() == old(tenants).slots().insert(
                    *tenant_shard_id,
                    TenantSlot::InProgress(barrier),
                )
            },
            Some(why) => {
                &&& final(tenants).slots() == old(tenants).slots()
                &&& r matches Err(e)
                &&& error_tells(e, why, *tenant_shard_id, old(tenants).slots())
            },
        },
{
    match tenants {
        TenantsMap::Initializing => Err(
            TenantSlotError::MapState(TenantMapError::StillInitializing),
        ),
        TenantsMap::ShuttingDown(_) => Err(TenantSlotError::MapState(TenantMapError::ShuttingDown)),
        TenantsMap::Open(m) => {
            match m.get(tenant_shard_id) {
                None => {
                    if let TenantSlotAcquireMode::MustExist = mode {
                        return Err(TenantSlotError::NotFound(*tenant_shard_id));
                    }
                },
                Some(TenantSlot::InProgress(_)) => {
                    return Err(TenantSlotError::InProgress);
                },
                Some(slot) => {
                    if let TenantSlotAcquireMode::MustNotExist = mode {
                        let state = match slot {
                            TenantSlot::Attached(tenant) => tenant.state.clone(),
                            _ => TenantState::Broken {
                                reason: String::from_str("Present but not attached"),
                                backtrace: String::from_str(""),
                            },
                        };
                        return Err(TenantSlotError::AlreadyExists(*tenant_shard_id, state));
                    }
                },
            }
            let old_value = m.insert(*tenant_shard_id, TenantSlot::InProgress(barrier));
            Ok(SlotGuard::new(*tenant_shard_id, old_value, completion))
        },
    }
}

/// Whether the tasks of what a slot held have ended.
pub open spec fn old_shut_down(old_value: Option<TenantSlot>) -> bool {
    match old_value {
        Some(slot) => slot.is_shut_down(),
        None => true,
    }
}

/// What a slot held, once its tasks have ended.
pub open spec fn shut_down_value(old_value: Option<TenantSlot>) -> Option<TenantSlot> {
    match old_value {
        Some(TenantSlot::Attached(t)) => Some(
            TenantSlot::Attached(Tenant { shut_down: true, ..t }),
        ),
        Some(TenantSlot::Secondary(s)) => Some(
            TenantSlot::Secondary(SecondaryTenant { shut_down: true, ..s }),
        ),
        other => other,
    }
}

/// The slots after a guard was released: a tenant that still runs is put back, otherwise
/// the slot is left empty.
pub open spec fn released(slots: Slots, id: TenantShardId, old_value: Option<TenantSlot>) -> Slots {
    if !slots.dom().contains(id) {
        slots
    } else if old_shut_down(old_value) {
        slots.remove(id)
    } else {
        slots.insert(id, old_value->0)
    }
}

/// Why a new value would not be put into a slot, or nothing if it would.
pub open spec fn upsert_obstacle(
    tenants: TenantsMap,
    guard: SlotGuard,
    new_value: TenantSlot,
) -> Option<TenantSlotUpsertError> {
    if !old_shut_down(guard.old_value) {
        Some(TenantSlotUpsertError::InternalError(SlotBug::OldValueNotShutDown))
    } else if new_value is InProgress {
        Some(TenantSlotUpsertError::InternalError(SlotBug::UpsertOfInProgress))
    } else {
        match tenants {
            TenantsMap::Initializing => Some(
                TenantSlotUpsertError::MapState(TenantMapError::StillInitializing),
            ),
            TenantsMap::ShuttingDown(_) => Some(
                TenantSlotUpsertError::ShuttingDown(new_value, guard.completion),
            ),
            TenantsMap::Open(_) => None,
        }
    }
}

impl SlotGuard {
    /// What the slot held was not an in-progress marker.
    pub open spec fn wf(self) -> bool {
        !(self.old_value matches Some(TenantSlot::InProgress(_)))
    }

    /// A guard for a slot that held `old_value`.
    pub fn new(
        tenant_shard_id: TenantShardId,
        old_value: Option<TenantSlot>,
        completion: u64,
    ) -> (r: SlotGuard)
        ensures
            r.tenant_shard_id == tenant_shard_id,
            r.old_value == old_value,
            !r.upserted,
            r.completion == completion,
    {
        SlotGuard { tenant_shard_id, old_value, upserted: false, completion }
    }

    /// What was in the slot before it was acquired.
    pub fn get_old_value(&self) -> (r: &Option<TenantSlot>)
        ensures
            *r == self.old_value,
    {
        &self.old_value
    }

    /// Whether the old value may be dropped: it must not leave tasks behind that write to
    /// the tenant's directory.
    pub fn old_value_is_shutdown(&self) -> (r: bool)
        requires
            self.wf(),
        ensures
            r == old_shut_down(self.old_value),
    {
        match &self.old_value {
            Some(TenantSlot::Attached(tenant)) => tenant.shut_down,
            Some(TenantSlot::Secondary(secondary)) => secondary.shut_down,
            Some(TenantSlot::InProgress(_)) => true,
            None => true,
        }
    }

    /// Notes that the tasks of the old value have ended.
    pub fn old_value_shut_down(&mut self)
        requires
            old(self).wf(),
        ensures
            final(self).wf(),
            final(self).old_value == shut_down_value(old(self).old_value),
            old_shut_down(final(self).old_value),
            final(self).tenant_shard_id == old(self).tenant_shard_id,
            final(self).upserted == old(self).upserted,
            final(self).completion == old(self).completion,
    {
        let old_value = self.old_value.take();
        self.old_value = match old_value {
            Some(TenantSlot::Attached(t)) => Some(
                TenantSlot::Attached(Tenant { shut_down: true, ..t }),
            ),
            Some(TenantSlot::Secondary(s)) => Some(
                TenantSlot::Secondary(SecondaryTenant { shut_down: true, ..s }),
            ),
            Some(TenantSlot::InProgress(b)) => Some(TenantSlot::InProgress(b)),
            None => None,
        };
    }

    /// Drops the old value, which must have been shut down.
    pub fn drop_old_value(&mut self) -> (r: Result<(), TenantSlotDropError>)
        requires
            old(self).wf(),
        ensures
            final(self).wf(),
            final(self).tenant_shard_id == old(self).tenant_shard_id,
            final(self).upserted == old(self).upserted,
            final(self).completion == old(self).completion,
            r is Ok == old_shut_down(old(self).old_value),
            final(self).old_value == if r is Ok {
                None
            } else {
                old(self).old_value
            },
    {
        if !self.old_value_is_shutdown() {
            Err(TenantSlotDropError)
        } else {
            self.old_value = None;
            Ok(())
        }
    }

    /// Disposes of the guard without a new value.  Says whether the slot was found as the
    /// guard expected it.
    pub fn release(self, tenants: &mut TenantsMap) -> (r: bool)
        requires
            self.wf(),
            old(tenants).wf(),
        ensures
            final(tenants).wf(),
            final(tenants).is_open() == old(tenants).is_open(),
            final(tenants).is_shutting_down() == old(tenants).is_shutting_down(),
            final(tenants).slots() == if self.upserted || !old(tenants).is_open() {
                old(tenants).slots()
            } else {
                released(old(tenants).slots(), self.tenant_shard_id, self.old_value)
            },
            r == (self.upserted || !old(tenants).is_open() || slot_value(
                old(tenants).slots(),
                self.tenant_shard_id,
            ) matches Some(TenantSlot::InProgress(_))),
    {
        if self.upserted {
            return true;
        }
        let shut_down = self.old_value_is_shutdown();
        match tenants {
            TenantsMap::Initializing => true,
            TenantsMap::ShuttingDown(_) => true,
            TenantsMap::Open(m) => {
                let expected = match m.get(&self.tenant_shard_id) {
                    None => {
                        return false;
                    },
                    Some(TenantSlot::InProgress(_)) => true,
                    Some(_) => false,
                };
                if shut_down {
                    m.remove(&self.tenant_shard_id);
                } else {
                    match self.old_value {
                        Some(value) => {
                            m.insert(self.tenant_shard_id, value);
                        },
                        None => {},
                    }
                }
                expected
            },
        }
    }

    /// Puts a new value into the slot and disposes of the guard.
    pub fn upsert(self, tenants: &mut TenantsMap, new_value: TenantSlot) -> (r: Result<
        (),
        TenantSlotUpsertError,
    >)
        requires
            self.wf(),
            !self.upserted,
            old(tenants).wf(),
        ensures
            final(tenants).wf(),
            final(tenants).is_open() == old(tenants).is_open(),
            final(tenants).is_shutting_down() == old(tenants).is_shutting_down(),
            match upsert_obstacle(*old(tenants), self, new_value) {
                Some(e) => {
                    &&& r == Err::<(), TenantSlotUpsertError>(e)
                    &&& final(tenants).slots() == if old(tenants).is_open() {
                        released(old(tenants).slots(), self.tenant_shard_id, self.old_value)
                    } else {
                        old(tenants).slots()
                    }
                },
                None => {
                    &&& final(tenants).slots() == old(tenants).slots().insert(
                        self.tenant_shard_id,
                        new_value,
                    )
                    &&& r == match slot_value(old(tenants).slots(), self.tenant_shard_id) {
                        Some(TenantSlot::InProgress(_)) => Ok(()),
                        None => Err(TenantSlotUpsertError::InternalError(SlotBug::MissingMarker)),
                        Some(_) => Err(
                            TenantSlotUpsertError::InternalError(SlotBug::UnexpectedContents),
                        ),
                    }
                },
            },
    {
        if !self.old_value_is_shutdown() {
            self.release(tenants);
            return Err(TenantSlotUpsertError::InternalError(SlotBug::OldValueNotShutDown));
        }
        if let TenantSlot::InProgress(_) = new_value {
            self.release(tenants);
            return Err(TenantSlotUpsertError::InternalError(SlotBug::UpsertOfInProgress));
        }
        match tenants {
            TenantsMap::Initializing => Err(
                TenantSlotUpsertError::MapState(TenantMapError::StillInitializing),
            ),
            TenantsMap::ShuttingDown(_) => Err(
                TenantSlotUpsertError::ShuttingDown(new_value, self.completion),
            ),
            TenantsMap::Open(m) => {
                match m.insert(self.tenant_shard_id, new_value) {
                    Some(TenantSlot::InProgress(_)) => Ok(()),
                    None => Err(TenantSlotUpsertError::InternalError(SlotBug::MissingMarker)),
                    Some(_) => Err(TenantSlotUpsertError::InternalError(SlotBug::UnexpectedContents)),
                }
            },
        }
    }

    /// Puts the old value back into the slot and disposes of the guard.
    pub fn revert(self, tenants: &mut TenantsMap)
        requires
            self.wf(),
            !self.upserted,
            old(tenants).wf(),
        ensures
            final(tenants).wf(),
            final(tenants).is_open() == old(tenants).is_open(),
            final(tenants).is_shutting_down() == old(tenants).is_shutting_down(),
            final(tenants).slots() == if !old(tenants).is_open() {
                old(tenants).slots()
            } else {
                reverted(old(tenants).slots(), self.tenant_shard_id, self.old_value)
            },
    {
        let mut guard = self;
        match guard.old_value.take() {
            Some(value) => {
                let _ = guard.upsert(tenants, value);
            },
            None => {
                guard.release(tenants);
            },
        }
    }
}

/// The slots after the old value was put back.
pub open spec fn reverted(slots: Slots, id: TenantShardId, old_value: Option<TenantSlot>) -> Slots {
    match old_value {
        Some(value) => slots.insert(id, value),
        None => slots.remove(id),
    }
}

/// While a guard exists nobody else gets one for the same slot, whatever they expect of it;
/// the guards of other slots are not affected.
pub proof fn guards_exclude_each_other(
    before: TenantsMap,
    after: TenantsMap,
    id: TenantShardId,
    barrier: u64,
    other: TenantShardId,
    mode: TenantSlotAcquireMode,
)
    requires
        before is Open,
        after is Open,
        after.slots() == before.slots().insert(id, TenantSlot::InProgress(barrier)),
    ensures
        refusal(after, id, mode) == Some(Refusal::InProgress),
        other != id ==> refusal(after, other, mode) == refusal(before, other, mode),
{
}

/// Acquiring a slot and putting its old value back leaves the map as it was.
pub proof fn revert_undoes_acquire(slots: Slots, id: TenantShardId, barrier: u64)
    ensures
        reverted(
            slots.insert(id, TenantSlot::InProgress(barrier)),
            id,
            slot_value(slots, id),
        ) == slots,
{
    assert(reverted(
        slots.insert(id, TenantSlot::InProgress(barrier)),
        id,
        slot_value(slots, id),
    ) =~= slots);
}

/// A guard that is released without a new value puts a tenant that still runs back, and
/// leaves the slot of any other empty.  No other slot changes.
pub proof fn release_keeps_running_tenants(
    slots: Slots,
    id: TenantShardId,
    barrier: u64,
    old_value: Option<TenantSlot>,
)
    requires
        old_value == slot_value(slots, id),
    ensures
        !old_shut_down(old_value) ==> released(
            slots.insert(id, TenantSlot::InProgress(barrier)),
            id,
            old_value,
        ) == slots,
        old_shut_down(old_value) ==> released(
            slots.insert(id, TenantSlot::InProgress(barrier)),
            id,
            old_value,
        ) == slots.remove(id),
{
    let marked = slots.insert(id, TenantSlot::InProgress(barrier));
    if old_shut_down(old_value) {
        assert(released(marked, id, old_value) =~= slots.remove(id));
    } else {
        assert(released(marked, id, old_value) =~= slots);
    }
}

/// A new value never takes the place of a tenant that still runs: the guard refuses it, and
/// the tenant is back in its slot.
pub proof fn upsert_keeps_running_tenants(
    tenants: TenantsMap,
    guard: SlotGuard,
    new_value: TenantSlot,
    slots: Slots,
    barrier: u64,
)
    requires
        tenants is Open,
        tenants.slots() == slots.insert(guard.tenant_shard_id, TenantSlot::InProgress(barrier)),
        guard.old_value == slot_value(slots, guard.tenant_shard_id),
        !old_shut_down(guard.old_value),
    ensures
        upsert_obstacle(tenants, guard, new_value) is Some,
        released(tenants.slots(), guard.tenant_shard_id, guard.old_value) == slots,
{
    release_keeps_running_tenants(slots, guard.tenant_shard_id, barrier, guard.old_value);
}

/// While the page server shuts down, looking at a slot never says that a tenant is absent.
pub proof fn shutdown_never_reports_absence(
    tenants: TenantsMap,
    id: TenantShardId,
    mode: TenantSlotPeekMode,
)
    requires
        tenants is ShuttingDown,
    ensures
        !(peeked(tenants, id, mode) matches Ok(None)),
{
}

/// A slot is shut down where its tenant says so, and while an operation is under way.
pub proof fn slots_are_shut_down_as_their_tenants(slot: TenantSlot)
    ensures
        slot matches TenantSlot::Attached(t) ==> slot.is_shut_down() == t.shut_down,
        slot matches TenantSlot::Secondary(s) ==> slot.is_shut_down() == s.shut_down,
        slot is InProgress ==> slot.is_shut_down(),
        old_shut_down(Some(slot)) == slot.is_shut_down(),
        old_shut_down(None),
{
}

/// A shut-down value differs from what it was in nothing but that it is shut down.
pub proof fn shut_down_values_stay_the_same(t: Tenant, s: SecondaryTenant)
    ensures
        shut_down_value(Some(TenantSlot::Attached(t))) == Some(
            TenantSlot::Attached(Tenant { shut_down: true, ..t }),
        ),
        shut_down_value(Some(TenantSlot::Secondary(s))) == Some(
            TenantSlot::Secondary(SecondaryTenant { shut_down: true, ..s }),
        ),
        shut_down_value(None) is None,
        old_shut_down(shut_down_value(Some(TenantSlot::Attached(t)))),
        old_shut_down(shut_down_value(Some(TenantSlot::Secondary(s)))),
{
}

/// A slot is read as it stands while the map is open; at shutdown it can still be read where it
/// is there, but not written, and before the map is loaded neither.
pub proof fn slots_are_read_until_the_end(tenants: TenantsMap, id: TenantShardId)
    ensures
        ({
            let read = peeked(tenants, id, TenantSlotPeekMode::Read);
            let write = peeked(tenants, id, TenantSlotPeekMode::Write);
            let there = tenants.slots().dom().contains(id);
            &&& tenants is Open && there ==> read == Ok::<Option<TenantSlot>, TenantMapError>(
                Some(tenants.slots()[id]),
            ) && write == read
            &&& tenants is Open && !there ==> read == Ok::<Option<TenantSlot>, TenantMapError>(None)
                && write == read
            &&& tenants is Initializing ==> read == Err::<Option<TenantSlot>, TenantMapError>(
                TenantMapError::StillInitializing,
            ) && write == read
            &&& tenants is ShuttingDown ==> write == Err::<Option<TenantSlot>, TenantMapError>(
                TenantMapError::ShuttingDown,
            )
            &&& tenants is ShuttingDown && there ==> read == Ok::<
                Option<TenantSlot>,
                TenantMapError,
            >(Some(tenants.slots()[id]))
            &&& tenants is ShuttingDown && !there ==> read == write
        }),
{
}

/// A slot is acquired exactly while the map is open, no operation is under way on it, and it is
/// there or not as the caller demands; each other case has its reason.
pub proof fn slots_are_acquired_one_at_a_time(
    tenants: TenantsMap,
    id: TenantShardId,
    mode: TenantSlotAcquireMode,
)
    ensures
        ({
            let why = refusal(tenants, id, mode);
            let there = tenants.slots().dom().contains(id);
            let busy = there && tenants.slots()[id] is InProgress;
            &&& why is None <==> tenants is Open && !busy && (mode
                == TenantSlotAcquireMode::MustNotExist ==> !there) && (mode
                == TenantSlotAcquireMode::MustExist ==> there)
            &&& why == Some(Refusal::MapState(TenantMapError::StillInitializing))
                <==> tenants is Initializing
            &&& why == Some(Refusal::MapState(TenantMapError::ShuttingDown))
                <==> tenants is ShuttingDown
            &&& why == Some(Refusal::InProgress) <==> tenants is Open && busy
            &&& why == Some(Refusal::AlreadyExists) <==> tenants is Open && there && !busy && mode
                == TenantSlotAcquireMode::MustNotExist
            &&& why == Some(Refusal::NotFound) <==> tenants is Open && !there && mode
                == TenantSlotAcquireMode::MustExist
        }),
{
}

/// Of the attached shards of a tenant that a selector fits the first in the order of the map is
/// found, and one is found where there is any.  Every shard fits a request for the first, only
/// number zero one for shard zero, and only the shard that holds a page one for that page.
pub proof fn the_first_fitting_shard_is_found(
    entries: Seq<(TenantShardId, TenantSlot)>,
    tenant_id: TenantId,
    selector: ShardSelector,
    from: int,
    i: int,
)
    requires
        0 <= from <= i < entries.len(),
        entries[i].0.tenant_id == tenant_id,
        entries[i].1 matches TenantSlot::Attached(t) && match selector {
            ShardSelector::First => true,
            ShardSelector::Zero => entries[i].0.shard_number.0 == 0,
            ShardSelector::Page(want) => t.shard_identity.number == want,
        },
    ensures
        first_match(entries, tenant_id, selector, from) is Some,
        (forall|k: int|
            from <= k < i ==> !((#[trigger] entries[k]).0.tenant_id == tenant_id && (
            entries[k].1 matches TenantSlot::Attached(t) && match selector {
                ShardSelector::First => true,
                ShardSelector::Zero => entries[k].0.shard_number.0 == 0,
                ShardSelector::Page(want) => t.shard_identity.number == want,
            }))) ==> first_match(entries, tenant_id, selector, from) == Some(entries[i].0),
    decreases i - from,
{
    if from < i {
        the_first_fitting_shard_is_found(entries, tenant_id, selector, from + 1, i);
    }
}

/// A shard that is found is attached, belongs to the tenant and fits the selector.
pub proof fn found_shards_fit(
    entries: Seq<(TenantShardId, TenantSlot)>,
    tenant_id: TenantId,
    selector: ShardSelector,
    from: int,
)
    requires
        0 <= from,
    ensures
        first_match(entries, tenant_id, selector, from) matches Some(id) ==> exists|i: int|
            from <= i < entries.len() && (#[trigger] entries[i]).0 == id && id.tenant_id
                == tenant_id && (entries[i].1 matches TenantSlot::Attached(t) && match selector {
                ShardSelector::First => true,
                ShardSelector::Zero => id.shard_number.0 == 0,
                ShardSelector::Page(want) => t.shard_identity.number == want,
            }),
    decreases entries.len() - from,
{
    if from < entries.len() {
        found_shards_fit(entries, tenant_id, selector, from + 1);
    }
}

/// A new value is refused where the old one still runs, where it is a marker itself, and where
/// the map is not open; at shutdown the new value is handed back.
pub proof fn new_values_need_a_free_slot(
    tenants: TenantsMap,
    guard: SlotGuard,
    new_value: TenantSlot,
)
    ensures
        ({
            let why = upsert_obstacle(tenants, guard, new_value);
            let running = !old_shut_down(guard.old_value);
            &&& why is None <==> !running && !(new_value is InProgress) && tenants is Open
            &&& why == Some(TenantSlotUpsertError::InternalError(SlotBug::OldValueNotShutDown))
                <==> running
            &&& why == Some(TenantSlotUpsertError::InternalError(SlotBug::UpsertOfInProgress))
                <==> !running && new_value is InProgress
            &&& why == Some(TenantSlotUpsertError::ShuttingDown(new_value, guard.completion))
                <==> !running && !(new_value is InProgress) && tenants is ShuttingDown
            &&& why == Some(TenantSlotUpsertError::MapState(TenantMapError::StillInitializing))
                <==> !running && !(new_value is InProgress) && tenants is Initializing
        }),
{
}

/// To release or revert a slot touches no other slot; a slot that is no longer there is not put
/// back by a release.
pub proof fn releases_touch_one_slot(
    slots: Slots,
    id: TenantShardId,
    old_value: Option<TenantSlot>,
    other: TenantShardId,
)
    requires
        other != id,
    ensures
        slot_value(released(slots, id, old_value), other) == slot_value(slots, other),
        slot_value(reverted(slots, id, old_value), other) == slot_value(slots, other),
        slot_value(reverted(slots, id, old_value), id) == old_value,
        slots.dom().contains(id) ==> slot_value(released(slots, id, old_value), id) == if old_value
            is Some && !old_value->0.is_shut_down() {
            old_value
        } else {
            None
        },
        !slots.dom().contains(id) ==> slot_value(released(slots, id, old_value), id) is None,
{
}

/// An error tells why a slot was refused, and of a slot that exists already what state it is in:
/// that of its tenant, or broken where nothing is attached.
pub proof fn errors_tell_the_refusal(
    id: TenantShardId,
    slots: Slots,
    existing: TenantShardId,
    state: TenantState,
    t: Tenant,
)
    ensures
        error_tells(TenantSlotError::InProgress, Refusal::InProgress, id, slots),
        error_tells(TenantSlotError::NotFound(existing), Refusal::NotFound, id, slots) <==> existing
            == id,
        !error_tells(TenantSlotError::InProgress, Refusal::NotFound, id, slots),
        !error_tells(TenantSlotError::NotFound(id), Refusal::InProgress, id, slots),
        slots.dom().contains(id) && slots[id] == TenantSlot::Attached(t) ==> (error_tells(
            TenantSlotError::AlreadyExists(existing, state),
            Refusal::AlreadyExists,
            id,
            slots,
        ) <==> existing == id && state == t.state),
        slots.dom().contains(id) && !(slots[id] is Attached) && error_tells(
            TenantSlotError::AlreadyExists(existing, state),
            Refusal::AlreadyExists,
            id,
            slots,
        ) ==> existing == id && (state matches TenantState::Broken { reason, .. } && reason@
            == "Present but not attached"@),
{
}

/// What is said where the map or a slot cannot be used.
pub proof fn map_error_words()
    ensures
        TenantMapError::StillInitializing.message_text() == "tenant map is still initializing"@,
        TenantMapError::ShuttingDown.message_text() == "tenant map is shutting down"@,
        SlotBug::OldValueNotShutDown.message_text() == "Old TenantSlot value not shut down"@,
        SlotBug::UpsertOfInProgress.message_text() == "Attempt to upsert an InProgress state"@,
        SlotBug::MissingMarker.message_text() == "Missing InProgress marker during tenant upsert"@,
        SlotBug::UnexpectedContents.message_text() == "Unexpected contents of TenantSlot"@,
{
}

} // verus!
