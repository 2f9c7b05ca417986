//! Operations that change one tenant: setting its location, resetting, deleting, removing
//! and loading it.
//!
//! Each operation is a series of steps.  A step decides on the state of the map and hands
//! out what has to be done outside: shutting a tenant down, writing its configuration,
//! flushing.  The outcome goes into the next step.
use vstd::prelude::*;

use crate::base::ordered_map::OrderedMap;
use crate::pageserver::ids::Generation;
use crate::pageserver::ids::ShardCount;
use crate::pageserver::ids::ShardIdentity;
use crate::pageserver::ids::ShardNumber;
use crate::pageserver::ids::TenantId;
use crate::pageserver::ids::TenantShardId;
use crate::pageserver::ids::TimelineId;
use crate::pageserver::location::AttachedLocationConfig;
use crate::pageserver::location::LocationConf;
use crate::pageserver::location::LocationMode;
use crate::pageserver::location::TenantConf;
use crate::pageserver::tenant_manager;
use crate::pageserver::tenant_manager::GetTenantError;
use crate::pageserver::tenant_map;
use crate::pageserver::tenant_map::AttachmentMode;
use crate::pageserver::tenant_map::SecondaryTenant;
use crate::pageserver::tenant_map::SlotBug;
use crate::pageserver::tenant_map::SlotGuard;
use crate::pageserver::tenant_map::Tenant;
use crate::pageserver::tenant_map::TenantMapError;
use crate::pageserver::tenant_map::TenantSlot;
use crate::pageserver::tenant_map::TenantSlotAcquireMode;
use crate::pageserver::tenant_map::TenantSlotError;
use crate::pageserver::tenant_map::TenantSlotPeekMode;
use crate::pageserver::tenant_map::TenantSlotUpsertError;
use crate::pageserver::tenant_map::TenantState;
use crate::pageserver::tenant_map::TenantsMap;

verus! {

/// Pages that go to one shard in a row unless a tenant is configured otherwise.
pub const DEFAULT_STRIPE_SIZE: u32 = 32768;

/// How a tenant is started.
#[derive(Clone, Copy, Debug, PartialEq, Eq, Structural)]
pub enum SpawnMode {
    /// Look for timelines in remote storage.
    Normal,
    /// The tenant is new, there is nothing to look for.
    Create,
}

/// Why a location was not set.
#[derive(Clone, Copy, Debug, PartialEq, Eq, Structural)]
pub enum UpsertLocationError {
    /// The requested generation is older than the one that is attached.
    OldGeneration { requested: Generation, existing: Generation },
    Unavailable(TenantMapError),
    InProgress,
    /// Uploading the tenant's data failed.
    Flush,
    Internal(SlotBug),
    /// Writing or starting the tenant failed.
    Other,
}

/// How setting a location begins.
#[derive(Clone, Copy, Debug, PartialEq, Eq, Structural)]
pub enum FastPath {
    /// The attached tenant has taken over the new settings; write them.
    UpdatedAttached { handle: u64 },
    /// The secondary tenant has taken over the new settings; write them.
    UpdatedSecondary { handle: u64 },
    /// What is in the slot has to be replaced.
    General,
}

/// What setting a location begins with, and what the slot then holds.
pub open spec fn fast_path(
    tenants: TenantsMap,
    id: TenantShardId,
    conf: LocationConf,
) -> Result<(FastPath, Option<TenantSlot>), UpsertLocationError> {
    match (conf.mode, tenant_map::peeked(tenants, id, TenantSlotPeekMode::Write)) {
        (_, Err(e)) => Err(UpsertLocationError::Unavailable(e)),
        (LocationMode::Attached(a), Ok(Some(TenantSlot::Attached(t)))) => if a.generation
            == t.generation {
            Ok(
                (
                    FastPath::UpdatedAttached { handle: t.handle },
                    Some(
                        TenantSlot::Attached(
                            Tenant {
                                attach_mode: a.attach_mode,
                                tenant_conf: conf.tenant_conf,
                                ..t
                            },
                        ),
                    ),
                ),
            )
        } else if a.generation.rank() < t.generation.rank() {
            Err(
                UpsertLocationError::OldGeneration {
                    requested: a.generation,
                    existing: t.generation,
                },
            )
        } else {
            Ok((FastPath::General, None))
        },
        (LocationMode::Secondary(c), Ok(Some(TenantSlot::Secondary(s)))) => Ok(
            (
                FastPath::UpdatedSecondary { handle: s.handle },
                Some(
                    TenantSlot::Secondary(
                        SecondaryTenant { warm: c.warm, tenant_conf: conf.tenant_conf, ..s },
                    ),
                ),
            ),
        ),
        _ => Ok((FastPath::General, None)),
    }
}

/// Begins to set a location.  Where only settings change the tenant in the slot takes them
/// over and goes on running.
pub fn upsert_fast_path(tenants: &mut TenantsMap, id: TenantShardId, conf: &LocationConf) -> (r:
    Result<FastPath, UpsertLocationError>)
    requires
        old(tenants).wf(),
    ensures
        final(tenants).wf(),
        final(tenants).is_open() == old(tenants).is_open(),
        final(tenants).is_shutting_down() == old(tenants).is_shutting_down(),
        match fast_path(*old(tenants), id, *conf) {
            Err(e) => r == Err::<FastPath, UpsertLocationError>(e) && final(tenants).slots()
                == old(tenants).slots(),
            Ok((path, updated)) => r == Ok::<FastPath, UpsertLocationError>(path) && final(tenants).slots() == match updated {
                Some(slot) => old(tenants).slots().insert(id, slot),
                None => old(tenants).slots(),
            },
        },
{
    let general = match tenant_map::tenant_map_peek_slot(tenants, &id, TenantSlotPeekMode::Write) {
        Err(e) => {
            return Err(UpsertLocationError::Unavailable(e));
        },
        Ok(None) => true,
        Ok(Some(slot)) => match (&conf.mode, slot) {
            (LocationMode::Attached(attach_conf), TenantSlot::Attached(tenant)) => {
                if attach_conf.generation == tenant.generation {
                    false
                } else if attach_conf.generation.older_than(&tenant.generation) {
                    return Err(
                        UpsertLocationError::OldGeneration {
                            requested: attach_conf.generation,
                            existing: tenant.generation,
                        },
                    );
                } else {
                    true
                }
            },
            (LocationMode::Secondary(_), TenantSlot::Secondary(_)) => false,
            _ => true,
        },
    };
    if general {
        return Ok(FastPath::General);
    }
    match tenants {
        TenantsMap::Open(m) => {
            let slot = m.remove(&id);
            match (slot, &conf.mode) {
                (Some(TenantSlot::Attached(tenant)), LocationMode::Attached(attach_conf)) => {
                    let handle = tenant.handle;
                    let updated = Tenant {
                        attach_mode: attach_conf.attach_mode,
                        tenant_conf: conf.tenant_conf,
                        ..tenant
                    };
                    m.insert(id, TenantSlot::Attached(updated));
                    assert(tenants.slots() =~= old(tenants).slots().insert(
                        id,
                        TenantSlot::Attached(updated),
                    ));
                    Ok(FastPath::UpdatedAttached { handle })
                },
                (Some(TenantSlot::Secondary(secondary)), LocationMode::Secondary(c)) => {
                    let handle = secondary.handle;
                    let updated = SecondaryTenant {
                        warm: c.warm,
                        tenant_conf: conf.tenant_conf,
                        ..secondary
                    };
                    m.insert(id, TenantSlot::Secondary(updated));
                    assert(tenants.slots() =~= old(tenants).slots().insert(
                        id,
                        TenantSlot::Secondary(updated),
                    ));
                    Ok(FastPath::UpdatedSecondary { handle })
                },
                (_, _) => Ok(FastPath::General),
            }
        },
        _ => Ok(FastPath::General),
    }
}

/// Whether the data of a tenant has to be uploaded before the request is answered: it is
/// on its way to another page server, and the caller has asked for it.
pub open spec fn wants_flush(conf: LocationConf, flush: bool) -> bool {
    flush && (conf.mode matches LocationMode::Attached(a) && a.attach_mode == AttachmentMode::Stale)
}

/// Whether the data of the tenant has to be uploaded before the request is answered.
pub fn flush_wanted(conf: &LocationConf, flush: bool) -> (r: bool)
    ensures
        r == wants_flush(*conf, flush),
{
    match conf.mode {
        LocationMode::Attached(a) => a.attach_mode == AttachmentMode::Stale && flush,
        LocationMode::Secondary(_) => false,
    }
}

/// How the upload of a tenant's data has ended.
#[derive(Clone, Copy, Debug, PartialEq, Eq, Structural)]
pub enum FlushEnd {
    Done,
    Failed,
    TimedOut,
}

/// After the upload: only a failure is an error, a timeout is not.
pub fn after_flush(end: FlushEnd) -> (r: Result<(), UpsertLocationError>)
    ensures
        r == if end == FlushEnd::Failed {
            Err(UpsertLocationError::Flush)
        } else {
            Ok(())
        },
{
    match end {
        FlushEnd::Failed => Err(UpsertLocationError::Flush),
        FlushEnd::Done => Ok(()),
        FlushEnd::TimedOut => Ok(()),
    }
}

/// What has to be shut down before a slot gets a new value.
#[derive(Clone, Copy, Debug, PartialEq, Eq, Structural)]
pub enum OldLocation {
    /// An attached tenant.  Where it may hold the latest generation, pending deletions are
    /// flushed first.
    Attached { handle: u64, flush_deletions: bool },
    Secondary { handle: u64 },
    Vacant,
}

/// What a slot's value asks to be shut down.
pub open spec fn old_location(old_value: Option<TenantSlot>) -> OldLocation {
    match old_value {
        Some(TenantSlot::Attached(t)) => OldLocation::Attached {
            handle: t.handle,
            flush_deletions: t.attach_mode != AttachmentMode::Stale,
        },
        Some(TenantSlot::Secondary(s)) => OldLocation::Secondary { handle: s.handle },
        _ => OldLocation::Vacant,
    }
}

/// What a refused acquisition means for setting a location.
pub open spec fn upsert_refusal(why: tenant_map::Refusal) -> UpsertLocationError {
    match why {
        tenant_map::Refusal::MapState(s) => UpsertLocationError::Unavailable(s),
        _ => UpsertLocationError::InProgress,
    }
}

/// Acquires the slot whose contents are to be replaced.
pub fn upsert_acquire(tenants: &mut TenantsMap, id: TenantShardId, barrier: u64, completion: u64) -> (r:
    Result<(SlotGuard, OldLocation), UpsertLocationError>)
    requires
        old(tenants).wf(),
    ensures
        final(tenants).wf(),
        final(tenants).is_open() == old(tenants).is_open(),
        final(tenants).is_shutting_down() == old(tenants).is_shutting_down(),
        match tenant_map::refusal(*old(tenants), id, TenantSlotAcquireMode::Any) {
            Some(why) => {
                &&& r == Err::<(SlotGuard, OldLocation), UpsertLocationError>(upsert_refusal(why))
                &&& final(tenants).slots() == old(tenants).slots()
            },
            None => {
                &&& r matches Ok((guard, old_loc))
                &&& guard.wf()
                &&& !guard.upserted
                &&& guard.tenant_shard_id == id
                &&& guard.completion == completion
                &&& guard.old_value == tenant_map::slot_value(old(tenants).slots(), id)
                &&& old_loc == old_location(guard.old_value)
                &&& final(tenants).slots() == old(tenants).slots().insert(
                    id,
                    TenantSlot::InProgress(barrier),
                )
            },
        },
{
    match tenant_map::tenant_map_acquire_slot(
        &id,
        tenants,
        TenantSlotAcquireMode::Any,
        barrier,
        completion,
    ) {
        Err(TenantSlotError::MapState(s)) => Err(UpsertLocationError::Unavailable(s)),
        Err(_) => Err(UpsertLocationError::InProgress),
        Ok(guard) => {
            let old_loc = match guard.get_old_value() {
                Some(TenantSlot::Attached(tenant)) => OldLocation::Attached {
                    handle: tenant.handle,
                    flush_deletions: match tenant.attach_mode {
                        AttachmentMode::Single => true,
                        AttachmentMode::Multi => true,
                        AttachmentMode::Stale => false,
                    },
                },
                Some(TenantSlot::Secondary(state)) => OldLocation::Secondary {
                    handle: state.handle,
                },
                Some(TenantSlot::InProgress(_)) => OldLocation::Vacant,
                None => OldLocation::Vacant,
            };
            Ok((guard, old_loc))
        },
    }
}

/// Notes that what was in the slot has been shut down.  A tenant that was attached is
/// dropped, and the new one is started in normal mode even if the caller meant to create
/// it: there is something in remote storage to look for.
pub fn old_location_shut_down(guard: &mut SlotGuard, spawn_mode: SpawnMode) -> (r: SpawnMode)
    requires
        old(guard).wf(),
    ensures
        final(guard).wf(),
        tenant_map::old_shut_down(final(guard).old_value),
        final(guard).tenant_shard_id == old(guard).tenant_shard_id,
        final(guard).upserted == old(guard).upserted,
        final(guard).completion == old(guard).completion,
        match old(guard).old_value {
            Some(TenantSlot::Attached(_)) => final(guard).old_value is None && r
                == SpawnMode::Normal,
            other => final(guard).old_value == tenant_map::shut_down_value(other) && r
                == spawn_mode,
        },
{
    let attached = match guard.get_old_value() {
        Some(TenantSlot::Attached(_)) => true,
        _ => false,
    };
    guard.old_value_shut_down();
    if attached {
        let _ = guard.drop_old_value();
        SpawnMode::Normal
    } else {
        spawn_mode
    }
}

/// The slot of a new secondary tenant; none where the configuration is not for one.
pub open spec fn new_secondary(id: TenantShardId, conf: LocationConf, handle: u64) -> Option<
    TenantSlot,
> {
    match conf.mode {
        LocationMode::Secondary(c) => Some(
            TenantSlot::Secondary(
                SecondaryTenant {
                    tenant_shard_id: id,
                    shard_identity: conf.shard,
                    tenant_conf: conf.tenant_conf,
                    warm: c.warm,
                    cancelled: false,
                    shut_down: false,
                    handle,
                },
            ),
        ),
        LocationMode::Attached(_) => None,
    }
}

/// The slot of a new secondary tenant.
pub fn secondary_slot(id: TenantShardId, conf: &LocationConf, handle: u64) -> (r: Option<TenantSlot>)
    ensures
        r == new_secondary(id, *conf, handle),
{
    match conf.mode {
        LocationMode::Secondary(c) => Some(
            TenantSlot::Secondary(
                SecondaryTenant {
                    tenant_shard_id: id,
                    shard_identity: conf.shard,
                    tenant_conf: conf.tenant_conf,
                    warm: c.warm,
                    cancelled: false,
                    shut_down: false,
                    handle,
                },
            ),
        ),
        LocationMode::Attached(_) => None,
    }
}

/// The slot of a new attached tenant; none where the configuration is not for one.
pub open spec fn new_attached(
    id: TenantShardId,
    conf: LocationConf,
    state: TenantState,
    handle: u64,
) -> Option<TenantSlot> {
    match conf.mode {
        LocationMode::Attached(a) => Some(
            TenantSlot::Attached(
                Tenant {
                    tenant_shard_id: id,
                    state,
                    generation: a.generation,
                    attach_mode: a.attach_mode,
                    shard_identity: conf.shard,
                    tenant_conf: conf.tenant_conf,
                    shut_down: false,
                    handle,
                },
            ),
        ),
        LocationMode::Secondary(_) => None,
    }
}

/// The slot of a tenant that was just started for this configuration and is in `state`.
pub fn attached_slot(id: TenantShardId, conf: &LocationConf, state: TenantState, handle: u64) -> (r:
    Option<TenantSlot>)
    ensures
        r == new_attached(id, *conf, state, handle),
{
    match conf.mode {
        LocationMode::Attached(a) => Some(
            TenantSlot::Attached(
                Tenant {
                    tenant_shard_id: id,
                    state,
                    generation: a.generation,
                    attach_mode: a.attach_mode,
                    shard_identity: conf.shard,
                    tenant_conf: conf.tenant_conf,
                    shut_down: false,
                    handle,
                },
            ),
        ),
        LocationMode::Secondary(_) => None,
    }
}

/// How setting a location ends.
pub enum UpsertEnd {
    /// The slot has its new value; the handle is that of an attached tenant.
    Done { attached: Option<u64> },
    /// The page server is shutting down: shut the new value down, hold the completion until
    /// then, and answer that the map is unavailable.
    ShutDownNew { slot: TenantSlot, completion: u64 },
    Failed(UpsertLocationError),
}

/// The handle of an attached tenant.
pub open spec fn attached_handle(slot: TenantSlot) -> Option<u64> {
    match slot {
        TenantSlot::Attached(t) => Some(t.handle),
        _ => None,
    }
}

/// Puts the new value into the slot.
pub fn upsert_finish(guard: SlotGuard, tenants: &mut TenantsMap, new_slot: TenantSlot) -> (r: UpsertEnd)
    requires
        guard.wf(),
        !guard.upserted,
        old(tenants).wf(),
    ensures
        final(tenants).wf(),
        final(tenants).is_open() == old(tenants).is_open(),
        final(tenants).is_shutting_down() == old(tenants).is_shutting_down(),
        match tenant_map::upsert_obstacle(*old(tenants), guard, new_slot) {
            None => {
                &&& final(tenants).slots() == old(tenants).slots().insert(
                    guard.tenant_shard_id,
                    new_slot,
                )
                &&& r == match tenant_map::slot_value(old(tenants).slots(), guard.tenant_shard_id) {
                    Some(TenantSlot::InProgress(_)) => UpsertEnd::Done {
                        attached: attached_handle(new_slot),
                    },
                    None => UpsertEnd::Failed(
                        UpsertLocationError::Internal(SlotBug::MissingMarker),
                    ),
                    Some(_) => UpsertEnd::Failed(
                        UpsertLocationError::Internal(SlotBug::UnexpectedContents),
                    ),
                }
            },
            Some(e) => {
                &&& final(tenants).slots() == if old(tenants).is_open() {
                    tenant_map::released(
                        old(tenants).slots(),
                        guard.tenant_shard_id,
                        guard.old_value,
                    )
                } else {
                    old(tenants).slots()
                }
                &&& r == match e {
                    TenantSlotUpsertError::InternalError(bug) => UpsertEnd::Failed(
                        UpsertLocationError::Internal(bug),
                    ),
                    TenantSlotUpsertError::MapState(s) => UpsertEnd::Failed(
                        UpsertLocationError::Unavailable(s),
                    ),
                    TenantSlotUpsertError::ShuttingDown(slot, completion) => UpsertEnd::ShutDownNew {
                        slot,
                        completion,
                    },
                }
            },
        },
{
    let attached = match new_slot.get_attached() {
        Some(t) => Some(t.handle),
        None => None,
    };
    match guard.upsert(tenants, new_slot) {
        Ok(()) => UpsertEnd::Done { attached },
        Err(TenantSlotUpsertError::InternalError(bug)) => UpsertEnd::Failed(
            UpsertLocationError::Internal(bug),
        ),
        Err(TenantSlotUpsertError::MapState(s)) => UpsertEnd::Failed(
            UpsertLocationError::Unavailable(s),
        ),
        Err(TenantSlotUpsertError::ShuttingDown(slot, completion)) => UpsertEnd::ShutDownNew {
            slot,
            completion,
        },
    }
}

/// Why a tenant was not reset.
pub enum ResetError {
    Slot(TenantSlotError),
    /// "Tenant not found when trying to reset"
    NotFound,
    /// "Tenant is not in attached state"
    NotAttached,
    /// "Cannot reset Tenant, already shutting down"
    AlreadyShuttingDown,
}

/// Acquires the slot of a tenant that is to be reset and says which tenant to shut down.
/// Where the slot holds no attached tenant it is left as it was.
pub fn reset_acquire(tenants: &mut TenantsMap, id: TenantShardId, barrier: u64, completion: u64) -> (r:
    Result<(SlotGuard, u64), ResetError>)
    requires
        old(tenants).wf(),
    ensures
        final(tenants).wf(),
        final(tenants).is_open() == old(tenants).is_open(),
        final(tenants).is_shutting_down() == old(tenants).is_shutting_down(),
        match tenant_map::refusal(*old(tenants), id, TenantSlotAcquireMode::Any) {
            Some(why) => {
                &&& r matches Err(ResetError::Slot(e)) && tenant_map::error_tells(
                    e,
                    why,
                    id,
                    old(tenants).slots(),
                )
                &&& final(tenants).slots() == old(tenants).slots()
            },
            None => match tenant_map::slot_value(old(tenants).slots(), id) {
                Some(TenantSlot::Attached(t)) => {
                    &&& r matches Ok((guard, handle))
                    &&& guard.wf()
                    &&& !guard.upserted
                    &&& guard.tenant_shard_id == id
                    &&& guard.completion == completion
                    &&& guard.old_value == Some(TenantSlot::Attached(t))
                    &&& handle == t.handle
                    &&& final(tenants).slots() == old(tenants).slots().insert(
                        id,
                        TenantSlot::InProgress(barrier),
                    )
                },
                Some(_) => r matches Err(ResetError::NotAttached) && final(tenants).slots() == old(tenants).slots(),
                None => r matches Err(ResetError::NotFound) && final(tenants).slots() == old(tenants).slots(),
            },
        },
{
    let ghost before = tenants.slots();
    let guard = match tenant_map::tenant_map_acquire_slot(
        &id,
        tenants,
        TenantSlotAcquireMode::Any,
        barrier,
        completion,
    ) {
        Ok(guard) => guard,
        Err(e) => {
            return Err(ResetError::Slot(e));
        },
    };
    let found = match guard.get_old_value() {
        None => None,
        Some(slot) => match slot.get_attached() {
            Some(t) => Some(Some(t.handle)),
            None => Some(None),
        },
    };
    proof {
        tenant_map::revert_undoes_acquire(before, id, barrier);
        tenant_map::release_keeps_running_tenants(before, id, barrier, guard.old_value);
    }
    match found {
        None => {
            guard.release(tenants);
            assert(tenants.slots() =~= before);
            Err(ResetError::NotFound)
        },
        Some(None) => {
            guard.revert(tenants);
            Err(ResetError::NotAttached)
        },
        Some(Some(handle)) => Ok((guard, handle)),
    }
}

/// After the attempt to shut the tenant down: it is dropped, or, if someone else is already
/// shutting it down, put back.
pub fn reset_after_shutdown(guard: SlotGuard, tenants: &mut TenantsMap, shut_down: bool) -> (r: Result<
    SlotGuard,
    ResetError,
>)
    requires
        guard.wf(),
        !guard.upserted,
        old(tenants).wf(),
    ensures
        final(tenants).wf(),
        final(tenants).is_open() == old(tenants).is_open(),
        final(tenants).is_shutting_down() == old(tenants).is_shutting_down(),
        if shut_down {
            &&& r matches Ok(after)
            &&& after.wf()
            &&& !after.upserted
            &&& after.tenant_shard_id == guard.tenant_shard_id
            &&& after.completion == guard.completion
            &&& after.old_value is None
            &&& final(tenants).slots() == old(tenants).slots()
        } else {
            &&& r matches Err(ResetError::AlreadyShuttingDown)
            &&& final(tenants).slots() == if old(tenants).is_open() {
                tenant_map::reverted(old(tenants).slots(), guard.tenant_shard_id, guard.old_value)
            } else {
                old(tenants).slots()
            }
        },
{
    if shut_down {
        let mut guard = guard;
        guard.old_value_shut_down();
        let _ = guard.drop_old_value();
        Ok(guard)
    } else {
        guard.revert(tenants);
        Err(ResetError::AlreadyShuttingDown)
    }
}

/// Why a tenant was not deleted.
pub enum DeleteTenantError {
    Slot(TenantSlotError),
    NotAttached,
    InvalidState(TenantState),
    Cancelled,
}

/// Acquires the slot of a tenant that is to be deleted.  Says which tenant it is and whether
/// it has to become active first: a broken one is deleted as it is, and a stopping one may
/// already be on its way out.
pub fn delete_acquire(tenants: &mut TenantsMap, id: TenantShardId, barrier: u64, completion: u64) -> (r:
    Result<(SlotGuard, u64, bool), DeleteTenantError>)
    requires
        old(tenants).wf(),
    ensures
        final(tenants).wf(),
        final(tenants).is_open() == old(tenants).is_open(),
        final(tenants).is_shutting_down() == old(tenants).is_shutting_down(),
        match tenant_map::refusal(*old(tenants), id, TenantSlotAcquireMode::MustExist) {
            Some(why) => {
                &&& r matches Err(DeleteTenantError::Slot(e)) && tenant_map::error_tells(
                    e,
                    why,
                    id,
                    old(tenants).slots(),
                )
                &&& final(tenants).slots() == old(tenants).slots()
            },
            None => match tenant_map::slot_value(old(tenants).slots(), id) {
                Some(TenantSlot::Attached(t)) => {
                    &&& r matches Ok((guard, handle, wait))
                    &&& guard.wf()
                    &&& !guard.upserted
                    &&& guard.tenant_shard_id == id
                    &&& guard.completion == completion
                    &&& guard.old_value == Some(TenantSlot::Attached(t))
                    &&& handle == t.handle
                    &&& wait == !(t.state is Broken || t.state is Stopping)
                    &&& final(tenants).slots() == old(tenants).slots().insert(
                        id,
                        TenantSlot::InProgress(barrier),
                    )
                },
                old_value => {
                    &&& r matches Err(DeleteTenantError::NotAttached)
                    &&& final(tenants).slots() == if tenant_map::old_shut_down(old_value) {
                        old(tenants).slots().remove(id)
                    } else {
                        old(tenants).slots()
                    }
                },
            },
        },
{
    let ghost before = tenants.slots();
    let guard = match tenant_map::tenant_map_acquire_slot(
        &id,
        tenants,
        TenantSlotAcquireMode::MustExist,
        barrier,
        completion,
    ) {
        Ok(guard) => guard,
        Err(e) => {
            return Err(DeleteTenantError::Slot(e));
        },
    };
    let found = match guard.get_old_value() {
        Some(TenantSlot::Attached(t)) => {
            let wait = match t.state {
                TenantState::Broken { .. } => false,
                TenantState::Stopping => false,
                _ => true,
            };
            Some((t.handle, wait))
        },
        _ => None,
    };
    match found {
        Some((handle, wait)) => Ok((guard, handle, wait)),
        None => {
            proof {
                tenant_map::release_keeps_running_tenants(before, id, barrier, guard.old_value);
            }
            guard.release(tenants);
            Err(DeleteTenantError::NotAttached)
        },
    }
}

/// How the wait for a tenant to become active has ended.
#[derive(Clone, Copy, Debug, PartialEq, Eq, Structural)]
pub enum ActivationEnd {
    Active,
    WillNotBecomeActive,
    Cancelled,
    NotFound,
    Timeout,
}

/// After the wait for a tenant that is to be deleted to become active.
pub fn delete_after_wait(end: ActivationEnd, state: TenantState) -> (r: Result<(), DeleteTenantError>)
    ensures
        r == match end {
            ActivationEnd::Active => Ok(()),
            ActivationEnd::WillNotBecomeActive => Err(DeleteTenantError::InvalidState(state)),
            ActivationEnd::Timeout => Err(DeleteTenantError::InvalidState(state)),
            ActivationEnd::Cancelled => Err(DeleteTenantError::Cancelled),
            ActivationEnd::NotFound => Err(DeleteTenantError::NotAttached),
        },
{
    match end {
        ActivationEnd::Active => Ok(()),
        ActivationEnd::WillNotBecomeActive => Err(DeleteTenantError::InvalidState(state)),
        ActivationEnd::Timeout => Err(DeleteTenantError::InvalidState(state)),
        ActivationEnd::Cancelled => Err(DeleteTenantError::Cancelled),
        ActivationEnd::NotFound => Err(DeleteTenantError::NotAttached),
    }
}

/// Why a tenant was not removed from memory.
pub enum TenantStateError {
    /// The tenant is already being shut down for another request.
    IsStopping(TenantShardId),
    Slot(TenantSlotError),
    /// Cleaning up behind the tenant failed.
    Cleanup(String),
}

/// What is shut down before a tenant is removed from memory.
#[derive(Clone, Copy, Debug, PartialEq, Eq, Structural)]
pub enum Removal {
    ShutDownAttached { handle: u64 },
    ShutDownSecondary { handle: u64 },
}

/// Acquires the slot of a tenant that is to be removed from memory.
pub fn remove_acquire(tenants: &mut TenantsMap, id: TenantShardId, barrier: u64, completion: u64) -> (r:
    Result<(SlotGuard, Removal), TenantStateError>)
    requires
        old(tenants).wf(),
    ensures
        final(tenants).wf(),
        final(tenants).is_open() == old(tenants).is_open(),
        final(tenants).is_shutting_down() == old(tenants).is_shutting_down(),
        match tenant_map::refusal(*old(tenants), id, TenantSlotAcquireMode::MustExist) {
            Some(why) => {
                &&& r matches Err(TenantStateError::Slot(e))
                &&& tenant_map::error_tells(e, why, id, old(tenants).slots())
                &&& final(tenants).slots() == old(tenants).slots()
            },
            None => {
                &&& r matches Ok((guard, removal))
                &&& guard.wf()
                &&& !guard.upserted
                &&& guard.tenant_shard_id == id
                &&& guard.completion == completion
                &&& guard.old_value == tenant_map::slot_value(old(tenants).slots(), id)
                &&& guard.old_value is Some
                &&& removal == match guard.old_value->0 {
                    TenantSlot::Attached(t) => Removal::ShutDownAttached { handle: t.handle },
                    TenantSlot::Secondary(s) => Removal::ShutDownSecondary { handle: s.handle },
                    TenantSlot::InProgress(b) => Removal::ShutDownSecondary { handle: b },
                }
                &&& final(tenants).slots() == old(tenants).slots().insert(
                    id,
                    TenantSlot::InProgress(barrier),
                )
            },
        },
{
    let guard = match tenant_map::tenant_map_acquire_slot(
        &id,
        tenants,
        TenantSlotAcquireMode::MustExist,
        barrier,
        completion,
    ) {
        Ok(guard) => guard,
        Err(e) => {
            return Err(TenantStateError::Slot(e));
        },
    };
    let removal = match guard.get_old_value() {
        Some(TenantSlot::Attached(t)) => Removal::ShutDownAttached { handle: t.handle },
        Some(TenantSlot::Secondary(s)) => Removal::ShutDownSecondary { handle: s.handle },
        Some(TenantSlot::InProgress(b)) => Removal::ShutDownSecondary { handle: *b },
        None => Removal::ShutDownSecondary { handle: 0 },
    };
    Ok((guard, removal))
}

/// After the attempt to shut the tenant down.  If a shutdown for another request is under
/// way, the tenant is put back and this request fails.
pub fn remove_after_shutdown(guard: SlotGuard, tenants: &mut TenantsMap, shut_down: bool) -> (r: Result<
    SlotGuard,
    TenantStateError,
>)
    requires
        guard.wf(),
        !guard.upserted,
        old(tenants).wf(),
    ensures
        final(tenants).wf(),
        final(tenants).is_open() == old(tenants).is_open(),
        final(tenants).is_shutting_down() == old(tenants).is_shutting_down(),
        if shut_down {
            &&& r matches Ok(after)
            &&& after.wf()
            &&& !after.upserted
            &&& after.tenant_shard_id == guard.tenant_shard_id
            &&& after.completion == guard.completion
            &&& after.old_value == tenant_map::shut_down_value(guard.old_value)
            &&& tenant_map::old_shut_down(after.old_value)
            &&& final(tenants).slots() == old(tenants).slots()
        } else {
            &&& r == Err::<SlotGuard, TenantStateError>(
                TenantStateError::IsStopping(guard.tenant_shard_id),
            )
            &&& final(tenants).slots() == if old(tenants).is_open() {
                tenant_map::reverted(old(tenants).slots(), guard.tenant_shard_id, guard.old_value)
            } else {
                old(tenants).slots()
            }
        },
{
    if shut_down {
        let mut guard = guard;
        guard.old_value_shut_down();
        Ok(guard)
    } else {
        let id = guard.tenant_shard_id;
        guard.revert(tenants);
        Err(TenantStateError::IsStopping(id))
    }
}

/// The old value of a slot with an attached tenant marked as broken.
pub open spec fn broken(old_value: Option<TenantSlot>, after: Option<TenantSlot>, reason: Seq<char>) -> bool {
    match old_value {
        Some(TenantSlot::Attached(t)) => {
            &&& after matches Some(TenantSlot::Attached(b))
            &&& b.state matches TenantState::Broken { reason: why, .. }
            &&& why@ == reason
            &&& b == (Tenant { state: b.state, ..t })
        },
        _ => after == old_value,
    }
}

/// After the attempt to clean up behind a tenant that was shut down: the slot is left empty,
/// or, where cleaning up failed, the tenant goes back into it, an attached one as broken.
pub fn remove_after_cleanup(
    guard: SlotGuard,
    tenants: &mut TenantsMap,
    failure: Option<String>,
) -> (r: Result<(), TenantStateError>)
    requires
        guard.wf(),
        !guard.upserted,
        tenant_map::old_shut_down(guard.old_value),
        old(tenants).wf(),
    ensures
        final(tenants).wf(),
        final(tenants).is_open() == old(tenants).is_open(),
        final(tenants).is_shutting_down() == old(tenants).is_shutting_down(),
        match failure {
            None => {
                &&& r is Ok
                &&& final(tenants).slots() == if old(tenants).is_open() {
                    old(tenants).slots().remove(guard.tenant_shard_id)
                } else {
                    old(tenants).slots()
                }
            },
            Some(reason) => {
                &&& r == Err::<(), TenantStateError>(TenantStateError::Cleanup(reason))
                &&& if old(tenants).is_open() {
                    exists|back: Option<TenantSlot>| #[trigger]
                        broken(guard.old_value, back, reason@) && final(tenants).slots()
                            == tenant_map::reverted(
                            old(tenants).slots(),
                            guard.tenant_shard_id,
                            back,
                        )
                } else {
                    final(tenants).slots() == old(tenants).slots()
                }
            },
        },
{
    let mut guard = guard;
    match failure {
        None => {
            let _ = guard.drop_old_value();
            let ghost id = guard.tenant_shard_id;
            guard.release(tenants);
            assert(old(tenants).is_open() ==> tenants.slots() =~= old(tenants).slots().remove(id));
            Ok(())
        },
        Some(reason) => {
            let ghost before = guard.old_value;
            let old_value = guard.old_value.take();
            guard.old_value = match old_value {
                Some(TenantSlot::Attached(t)) => Some(
                    TenantSlot::Attached(
                        Tenant {
                            state: TenantState::Broken {
                                reason: reason.clone(),
                                backtrace: String::new(),
                            },
                            ..t
                        },
                    ),
                ),
                other => other,
            };
            assert(broken(before, guard.old_value, reason@));
            guard.revert(tenants);
            Err(TenantStateError::Cleanup(reason))
        },
    }
}

/// Whether the directory of a tenant that was not found in memory is removed all the same:
/// it was set aside, and the caller wants such tenants detached too.
pub fn detach_set_aside(
    removal: &Result<(), TenantStateError>,
    detach_ignored: bool,
    has_ignore_mark: bool,
) -> (r: bool)
    ensures
        r == (detach_ignored && has_ignore_mark && (*removal matches Err(
            TenantStateError::Slot(TenantSlotError::NotFound(_)),
        ))),
{
    match removal {
        Err(TenantStateError::Slot(TenantSlotError::NotFound(_))) => detach_ignored
            && has_ignore_mark,
        _ => false,
    }
}

/// Acquires the slot of a tenant without shards that is to be loaded: there must be none.
pub fn load_acquire(tenants: &mut TenantsMap, tenant_id: TenantId, barrier: u64, completion: u64) -> (r:
    Result<SlotGuard, TenantSlotError>)
    requires
        old(tenants).wf(),
    ensures
        final(tenants).wf(),
        final(tenants).is_open() == old(tenants).is_open(),
        final(tenants).is_shutting_down() == old(tenants).is_shutting_down(),
        ({
            let id = TenantShardId::unsharded(tenant_id);
            match tenant_map::refusal(*old(tenants), id, TenantSlotAcquireMode::MustNotExist) {
                Some(why) => {
                    &&& r matches Err(e)
                    &&& tenant_map::error_tells(e, why, id, old(tenants).slots())
                    &&& final(tenants).slots() == old(tenants).slots()
                },
                None => {
                    &&& r matches Ok(guard)
                    &&& guard.wf()
                    &&& !guard.upserted
                    &&& guard.tenant_shard_id == id
                    &&& guard.completion == completion
                    &&& guard.old_value is None
                    &&& final(tenants).slots() == old(tenants).slots().insert(
                        id,
                        TenantSlot::InProgress(barrier),
                    )
                },
            }
        }),
{
    tenant_map::tenant_map_acquire_slot(
        &TenantShardId::unsharded(tenant_id),
        tenants,
        TenantSlotAcquireMode::MustNotExist,
        barrier,
        completion,
    )
}

/// Why the settings of a tenant were not replaced.
pub enum SetNewTenantConfigError {
    GetTenant(GetTenantError),
    /// The tenant has shards, which need another request.
    Sharded,
    /// The configuration was not written.
    Persist,
}

/// The configuration to write for a tenant whose settings are replaced: that of its only
/// location, in the generation in which it is attached.
pub open spec fn replaced_conf(t: Tenant, new_conf: TenantConf) -> LocationConf {
    LocationConf {
        mode: LocationMode::Attached(
            AttachedLocationConfig {
                generation: t.generation,
                attach_mode: AttachmentMode::Single,
            },
        ),
        shard: ShardIdentity {
            number: ShardNumber(0),
            count: ShardCount(0),
            stripe_size: DEFAULT_STRIPE_SIZE,
        },
        tenant_conf: new_conf,
    }
}

/// Begins to replace the settings of a tenant, which must be active and must not have shards:
/// the handle of the tenant, and the configuration to write for it.
pub fn new_tenant_config(tenants: &TenantsMap, tenant_id: TenantId, new_conf: TenantConf) -> (r:
    Result<(u64, LocationConf), SetNewTenantConfigError>)
    requires
        tenants.wf(),
    ensures
        match tenant_manager::lookup(*tenants, TenantShardId::unsharded(tenant_id), true) {
            Err(e) => r == Err::<(u64, LocationConf), _>(SetNewTenantConfigError::GetTenant(e)),
            Ok(t) => if t.tenant_shard_id.shard_count.0 != 0 {
                r == Err::<(u64, LocationConf), _>(SetNewTenantConfigError::Sharded)
            } else {
                r == Ok::<_, SetNewTenantConfigError>((t.handle, replaced_conf(t, new_conf)))
            },
        },
{
    match tenant_manager::get_tenant(tenants, TenantShardId::unsharded(tenant_id), true) {
        Ok(t) => {
            if !t.tenant_shard_id.shard_count.is_unsharded() {
                return Err(SetNewTenantConfigError::Sharded);
            }
            let shard = ShardIdentity {
                number: ShardNumber(0),
                count: ShardCount(0),
                stripe_size: DEFAULT_STRIPE_SIZE,
            };
            Ok((t.handle, LocationConf::attached_single(new_conf, t.generation, shard)))
        },
        Err(e) => Err(SetNewTenantConfigError::GetTenant(e)),
    }
}

/// The slots after the attached tenant with this handle has taken over new settings.  Where it
/// is no longer in the slot, nothing changes there.
pub open spec fn with_settings(
    slots: tenant_map::Slots,
    id: TenantShardId,
    handle: u64,
    new_conf: TenantConf,
) -> tenant_map::Slots {
    match tenant_map::slot_value(slots, id) {
        Some(TenantSlot::Attached(t)) => if t.handle == handle {
            slots.insert(id, TenantSlot::Attached(Tenant { tenant_conf: new_conf, ..t }))
        } else {
            slots
        },
        _ => slots,
    }
}

/// Replaces the settings of the attached tenant with this handle.
fn replace_settings(
    slots: &mut OrderedMap<TenantShardId, TenantSlot>,
    id: TenantShardId,
    handle: u64,
    new_conf: TenantConf,
)
    requires
        old(slots).wf(),
    ensures
        final(slots).wf(),
        final(slots)@ == with_settings(old(slots)@, id, handle, new_conf),
{
    let found = match slots.get(&id) {
        Some(TenantSlot::Attached(t)) => t.handle == handle,
        _ => false,
    };
    if found {
        if let Some(TenantSlot::Attached(t)) = slots.remove(&id) {
            let updated = Tenant { tenant_conf: new_conf, ..t };
            slots.insert(id, TenantSlot::Attached(updated));
            assert(slots@ =~= old(slots)@.insert(id, TenantSlot::Attached(updated)));
        }
    }
}

/// Ends the replacement of a tenant's settings after its configuration was written, or could not
/// be: the running tenant takes the new settings over once they are written.
pub fn set_new_tenant_config(
    tenants: &mut TenantsMap,
    tenant_id: TenantId,
    handle: u64,
    new_conf: TenantConf,
    written: bool,
) -> (r: Result<(), SetNewTenantConfigError>)
    requires
        old(tenants).wf(),
    ensures
        final(tenants).wf(),
        final(tenants).is_open() == old(tenants).is_open(),
        final(tenants).is_shutting_down() == old(tenants).is_shutting_down(),
        r == if written {
            Ok::<(), SetNewTenantConfigError>(())
        } else {
            Err(SetNewTenantConfigError::Persist)
        },
        final(tenants).slots() == if written {
            with_settings(
                old(tenants).slots(),
                TenantShardId::unsharded(tenant_id),
                handle,
                new_conf,
            )
        } else {
            old(tenants).slots()
        },
{
    if !written {
        return Err(SetNewTenantConfigError::Persist);
    }
    let id = TenantShardId::unsharded(tenant_id);
    match tenants {
        TenantsMap::Initializing => {},
        TenantsMap::Open(m) => {
            replace_settings(m, id, handle, new_conf);
        },
        TenantsMap::ShuttingDown(m) => {
            replace_settings(m, id, handle, new_conf);
        },
    }
    Ok(())
}

/// A garbage collection that was asked for.
#[derive(Clone, Copy, Debug, PartialEq, Eq, Structural)]
pub struct GcRun {
    /// The handle of the tenant.
    pub handle: u64,
    pub timeline_id: TimelineId,
    pub horizon: u64,
    /// How long history is kept, in nanoseconds.
    pub pitr: u128,
}

/// What an immediate garbage collection of a timeline needs: the tenant, which must be
/// attached, the horizon, the tenant's own unless the request gives one, and the tenant's own
/// time for which history is kept.
pub fn immediate_gc(
    tenants: &TenantsMap,
    id: TenantShardId,
    timeline_id: TimelineId,
    requested_horizon: Option<u64>,
    tenant_horizon: u64,
    tenant_pitr: u128,
) -> (r: Option<GcRun>)
    requires
        tenants.wf(),
    ensures
        r == match tenant_map::slot_value(tenants.slots(), id) {
            Some(TenantSlot::Attached(t)) => Some(
                GcRun {
                    handle: t.handle,
                    timeline_id,
                    horizon: match requested_horizon {
                        Some(h) => h,
                        None => tenant_horizon,
                    },
                    pitr: tenant_pitr,
                },
            ),
            _ => None,
        },
{
    match tenants.get(&id) {
        Some(t) => {
            let horizon = match requested_horizon {
                Some(h) => h,
                None => tenant_horizon,
            };
            Some(GcRun { handle: t.handle, timeline_id, horizon, pitr: tenant_pitr })
        },
        None => None,
    }
}

/// Replaced settings are those that the tenant runs with and those that were written, and
/// nothing else changes: not the generation, not the state, and no other slot.
pub proof fn replaced_settings_are_in_force(
    tenants: TenantsMap,
    tenant_id: TenantId,
    new_conf: TenantConf,
    t: Tenant,
)
    requires
        tenants is Open,
        tenant_map::slot_value(tenants.slots(), TenantShardId::unsharded(tenant_id)) == Some(
            TenantSlot::Attached(t),
        ),
    ensures
        ({
            let id = TenantShardId::unsharded(tenant_id);
            let after = with_settings(tenants.slots(), id, t.handle, new_conf);
            &&& tenant_map::slot_value(after, id) == Some(
                TenantSlot::Attached(Tenant { tenant_conf: new_conf, ..t }),
            )
            &&& after.remove(id) == tenants.slots().remove(id)
            &&& replaced_conf(t, new_conf).tenant_conf == new_conf
        }),
{
    let id = TenantShardId::unsharded(tenant_id);
    let after = with_settings(tenants.slots(), id, t.handle, new_conf);
    assert(after.remove(id) =~= tenants.slots().remove(id));
}

/// Setting a location in place hands the requested settings to the tenant in the slot.
pub proof fn settings_are_taken_over(tenants: TenantsMap, id: TenantShardId, conf: LocationConf)
    ensures
        fast_path(tenants, id, conf) matches Ok((path, slot)) ==> (path is General <==> slot is None)
            && match slot {
            Some(TenantSlot::Attached(t)) => t.tenant_conf == conf.tenant_conf,
            Some(TenantSlot::Secondary(s)) => s.tenant_conf == conf.tenant_conf,
            Some(TenantSlot::InProgress(_)) => false,
            None => true,
        },
{
}

/// Setting the location of a tenant never takes it back to an older generation: the request
/// is refused, or the generation in the slot stays, or the slot has to be acquired first.
pub proof fn settings_keep_the_generation(
    tenants: TenantsMap,
    id: TenantShardId,
    conf: LocationConf,
    existing: Tenant,
)
    requires
        tenants is Open,
        tenant_map::slot_value(tenants.slots(), id) == Some(TenantSlot::Attached(existing)),
    ensures
        conf.mode matches LocationMode::Attached(a) && a.generation.rank()
            < existing.generation.rank() ==> fast_path(tenants, id, conf) is Err,
        fast_path(tenants, id, conf) matches Ok((_, Some(TenantSlot::Attached(t))))
            ==> t.generation == existing.generation,
{
}

/// Shutting the old value down before the new one is put in is enough for the new one to be
/// accepted: the slot then holds it.
pub proof fn shut_down_slots_take_new_values(
    tenants: TenantsMap,
    guard: SlotGuard,
    new_slot: TenantSlot,
)
    requires
        tenants is Open,
        tenant_map::old_shut_down(guard.old_value),
        !(new_slot is InProgress),
    ensures
        tenant_map::upsert_obstacle(tenants, guard, new_slot) is None,
{
}

/// A location is set in place exactly where the slot holds a tenant of the same mode that can
/// take the settings over: an attached one of the same generation, or a secondary one.  An older
/// generation is refused, and everything else is replaced.
pub proof fn locations_are_set_in_place_where_they_can(
    tenants: TenantsMap,
    id: TenantShardId,
    conf: LocationConf,
)
    requires
        tenants is Open,
    ensures
        ({
            let r = fast_path(tenants, id, conf);
            let slot = tenant_map::slot_value(tenants.slots(), id);
            match (conf.mode, slot) {
                (LocationMode::Attached(a), Some(TenantSlot::Attached(t))) => {
                    &&& a.generation == t.generation ==> r == Ok::<
                        (FastPath, Option<TenantSlot>),
                        UpsertLocationError,
                    >(
                        (
                            FastPath::UpdatedAttached { handle: t.handle },
                            Some(
                                TenantSlot::Attached(
                                    Tenant {
                                        tenant_shard_id: t.tenant_shard_id,
                                        state: t.state,
                                        generation: t.generation,
                                        attach_mode: a.attach_mode,
                                        shard_identity: t.shard_identity,
                                        tenant_conf: conf.tenant_conf,
                                        shut_down: t.shut_down,
                                        handle: t.handle,
                                    },
                                ),
                            ),
                        ),
                    )
                    &&& a.generation.rank() < t.generation.rank() ==> r == Err::<
                        (FastPath, Option<TenantSlot>),
                        UpsertLocationError,
                    >(
                        UpsertLocationError::OldGeneration {
                            requested: a.generation,
                            existing: t.generation,
                        },
                    )
                    &&& a.generation.rank() > t.generation.rank() ==> (r matches Ok((path, _))
                        && path is General)
                },
                (LocationMode::Secondary(c), Some(TenantSlot::Secondary(s))) => r == Ok::<
                    (FastPath, Option<TenantSlot>),
                    UpsertLocationError,
                >(
                    (
                        FastPath::UpdatedSecondary { handle: s.handle },
                        Some(
                            TenantSlot::Secondary(
                                SecondaryTenant {
                                    tenant_shard_id: s.tenant_shard_id,
                                    shard_identity: s.shard_identity,
                                    tenant_conf: conf.tenant_conf,
                                    warm: c.warm,
                                    cancelled: s.cancelled,
                                    shut_down: s.shut_down,
                                    handle: s.handle,
                                },
                            ),
                        ),
                    ),
                ),
                _ => r == Ok::<(FastPath, Option<TenantSlot>), UpsertLocationError>(
                    (FastPath::General, None),
                ),
            }
        }),
{
}

/// While the map is not open no location is set.
pub proof fn locations_are_set_in_open_maps(
    tenants: TenantsMap,
    id: TenantShardId,
    conf: LocationConf,
)
    ensures
        tenants is Initializing ==> fast_path(tenants, id, conf) == Err::<
            (FastPath, Option<TenantSlot>),
            UpsertLocationError,
        >(UpsertLocationError::Unavailable(TenantMapError::StillInitializing)),
        tenants is ShuttingDown ==> fast_path(tenants, id, conf) == Err::<
            (FastPath, Option<TenantSlot>),
            UpsertLocationError,
        >(UpsertLocationError::Unavailable(TenantMapError::ShuttingDown)),
{
}

/// Data is uploaded before the answer exactly where the caller asks for it and the tenant goes
/// stale.
pub proof fn tenants_that_go_stale_are_flushed(conf: LocationConf, flush: bool)
    ensures
        wants_flush(conf, flush) <==> flush && conf.mode is Attached
            && conf.mode->Attached_0.attach_mode == AttachmentMode::Stale,
{
}

/// What is in a slot is shut down before it is replaced; pending deletions of an attached tenant
/// are flushed first unless it has gone stale.
pub proof fn old_tenants_are_shut_down(t: Tenant, s: SecondaryTenant, barrier: u64)
    ensures
        old_location(Some(TenantSlot::Attached(t))) == (OldLocation::Attached {
            handle: t.handle,
            flush_deletions: t.attach_mode != AttachmentMode::Stale,
        }),
        old_location(Some(TenantSlot::Secondary(s))) == (OldLocation::Secondary {
            handle: s.handle,
        }),
        old_location(None) == OldLocation::Vacant,
        old_location(Some(TenantSlot::InProgress(barrier))) == OldLocation::Vacant,
{
}

/// A slot that cannot be acquired is told as what it is: a map that is not open, or another
/// operation that is under way.
pub proof fn upsert_refusals_are_told(s: TenantMapError)
    ensures
        upsert_refusal(tenant_map::Refusal::MapState(s)) == UpsertLocationError::Unavailable(s),
        upsert_refusal(tenant_map::Refusal::InProgress) == UpsertLocationError::InProgress,
{
}

/// A new tenant is what its location asks for, under its own handle, running, and of no other
/// mode.
pub proof fn new_tenants_are_as_requested(
    id: TenantShardId,
    conf: LocationConf,
    state: TenantState,
    handle: u64,
)
    ensures
        new_secondary(id, conf, handle) is Some <==> conf.mode is Secondary,
        new_attached(id, conf, state, handle) is Some <==> conf.mode is Attached,
        new_secondary(id, conf, handle) matches Some(slot) ==> slot == TenantSlot::Secondary(
            SecondaryTenant {
                tenant_shard_id: id,
                shard_identity: conf.shard,
                tenant_conf: conf.tenant_conf,
                warm: conf.mode->Secondary_0.warm,
                cancelled: false,
                shut_down: false,
                handle,
            },
        ),
        new_attached(id, conf, state, handle) matches Some(slot) ==> slot == TenantSlot::Attached(
            Tenant {
                tenant_shard_id: id,
                state,
                generation: conf.mode->Attached_0.generation,
                attach_mode: conf.mode->Attached_0.attach_mode,
                shard_identity: conf.shard,
                tenant_conf: conf.tenant_conf,
                shut_down: false,
                handle,
            },
        ),
{
}

/// Only an attached tenant has a handle to answer with.
pub proof fn only_attached_tenants_are_answered(t: Tenant, slot: TenantSlot)
    ensures
        attached_handle(TenantSlot::Attached(t)) == Some(t.handle),
        attached_handle(slot) is Some <==> slot is Attached,
{
}

/// Settings that are replaced leave the generation of the tenant, which stays alone and whole;
/// the new settings reach the slot only where the same tenant is still in it, and no other slot.
pub proof fn replaced_settings_change_nothing_else(
    slots: tenant_map::Slots,
    id: TenantShardId,
    t: Tenant,
    handle: u64,
    new_conf: TenantConf,
    other: TenantShardId,
)
    ensures
        replaced_conf(t, new_conf).mode matches LocationMode::Attached(a) && a.generation
            == t.generation && a.attach_mode == AttachmentMode::Single,
        replaced_conf(t, new_conf).shard.number.0 == 0,
        replaced_conf(t, new_conf).shard.count.0 == 0,
        replaced_conf(t, new_conf).shard.stripe_size == 32768,
        replaced_conf(t, new_conf).tenant_conf == new_conf,
        other != id ==> tenant_map::slot_value(with_settings(slots, id, handle, new_conf), other)
            == tenant_map::slot_value(slots, other),
        !(tenant_map::slot_value(slots, id) matches Some(TenantSlot::Attached(now)) && now.handle
            == handle) ==> with_settings(slots, id, handle, new_conf) == slots,
{
}

/// A tenant that breaks stays in its slot as it was, but for its state.
pub proof fn broken_tenants_keep_their_slot(
    t: Tenant,
    s: SecondaryTenant,
    after: Option<TenantSlot>,
    reason: Seq<char>,
)
    ensures
        broken(Some(TenantSlot::Attached(t)), after, reason) <==> (after matches Some(
            TenantSlot::Attached(b),
        ) && (b.state matches TenantState::Broken { reason: why, .. } && why@ == reason)
            && b.tenant_shard_id == t.tenant_shard_id && b.generation == t.generation
            && b.attach_mode == t.attach_mode && b.shard_identity == t.shard_identity
            && b.tenant_conf == t.tenant_conf && b.shut_down == t.shut_down && b.handle
            == t.handle),
        broken(Some(TenantSlot::Secondary(s)), after, reason) <==> after == Some(
            TenantSlot::Secondary(s),
        ),
        broken(None, after, reason) <==> after is None,
{
}

} // verus!
