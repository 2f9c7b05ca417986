//! Setting the location of a tenant, from the request to the answer.
//!
//! Where only settings change, the tenant in the slot takes them over and goes on running.
//! Otherwise what is in the slot is shut down, the new configuration is written, and a new
//! tenant takes the place.  The slot is acquired all the while.
use vstd::prelude::*;

use crate::pageserver::ids::TenantShardId;
use crate::pageserver::location::LocationConf;
use crate::pageserver::location::LocationMode;
use crate::pageserver::location::TenantConf;
use crate::pageserver::tenant_map;
use crate::pageserver::tenant_map::SlotGuard;
use crate::pageserver::tenant_map::Slots;
use crate::pageserver::tenant_map::Tenant;
use crate::pageserver::tenant_map::TenantMapError;
use crate::pageserver::tenant_map::TenantSlot;
use crate::pageserver::tenant_map::TenantSlotAcquireMode;
use crate::pageserver::tenant_map::TenantSlotUpsertError;
use crate::pageserver::tenant_map::TenantState;
use crate::pageserver::tenant_map::TenantsMap;
use crate::pageserver::tenant_map::SlotBug;
use crate::pageserver::tenant_ops;
use crate::pageserver::tenant_ops::FastPath;
use crate::pageserver::tenant_ops::FlushEnd;
use crate::pageserver::tenant_ops::OldLocation;
use crate::pageserver::tenant_ops::SpawnMode;
use crate::pageserver::tenant_ops::UpsertEnd;
use crate::pageserver::tenant_ops::UpsertLocationError;

verus! {

/// A request to set the location of a tenant shard.
pub struct UpsertRequest {
    pub id: TenantShardId,
    pub conf: LocationConf,
    /// Whether the caller waits until the data of a tenant that goes stale is uploaded.
    pub flush: bool,
    pub spawn_mode: SpawnMode,
    /// The handle of the tenant that is started, if one is.
    pub handle: u64,
}

/// How far setting a location has come.
pub enum UpsertState {
    /// The tenant in the slot has taken over the settings, which are being written.  The
    /// handle is that of an attached tenant.
    WritingSettings { attached: Option<u64> },
    /// The data of an attached tenant is being uploaded.
    Flushing { handle: u64 },
    /// What was in the slot is being shut down.
    ShuttingDownOld { guard: SlotGuard },
    CreatingDirectories { guard: SlotGuard, spawn_mode: SpawnMode },
    WritingConf { guard: SlotGuard, spawn_mode: SpawnMode },
    /// The new tenant is being started.
    Starting { guard: SlotGuard },
    /// The new tenant came too late and is being shut down.
    ShuttingDownNew { completion: u64 },
    Ended,
}

/// What has come of the last action.
pub enum UpsertEvent {
    Done,
    Failed,
    TimedOut,
    /// A tenant was started and is in this state.
    Started { state: TenantState },
}

/// What has to be done next.
pub enum UpsertAction {
    /// Let the tenant with this handle, which goes on running, take the configuration over, and
    /// write it.
    TakeOver { handle: u64, conf: LocationConf },
    /// Write the configuration.
    WriteConf { conf: LocationConf },
    /// Upload the data of the tenant, for as long as the caller allows.
    Flush { handle: u64 },
    /// Shut an attached tenant down; flush pending deletions first where asked to.
    ShutDownAttached { handle: u64, flush_deletions: bool },
    ShutDownSecondary { handle: u64 },
    CreateDirectories,
    /// Start the tenant with this configuration.
    Spawn { mode: SpawnMode, conf: LocationConf },
    /// Shut the new tenant down.
    ShutDownNew { slot: TenantSlot },
    /// Answer the request: with the handle of the tenant where it is attached.
    Answer { r: Result<Option<u64>, UpsertLocationError> },
}

impl UpsertState {
    /// The guard of the slot, where it is acquired.
    pub open spec fn guard(self) -> Option<SlotGuard> {
        match self {
            UpsertState::ShuttingDownOld { guard } => Some(guard),
            UpsertState::CreatingDirectories { guard, .. } => Some(guard),
            UpsertState::WritingConf { guard, .. } => Some(guard),
            UpsertState::Starting { guard } => Some(guard),
            _ => None,
        }
    }

    /// The guard is that of the request's slot, and from when directories are created on
    /// what was in the slot has been shut down.  Only attached tenants are started.
    pub open spec fn wf(self, req: UpsertRequest) -> bool {
        &&& self.guard() matches Some(guard) ==> guard.wf() && !guard.upserted
            && guard.tenant_shard_id == req.id
        &&& self.guard() matches Some(guard) ==> self is ShuttingDownOld
            || tenant_map::old_shut_down(guard.old_value)
        &&& self is Starting ==> req.conf.mode is Attached
    }

    /// Whether an event can come in this state.
    pub open spec fn expects(self, event: UpsertEvent) -> bool {
        match self {
            UpsertState::WritingSettings { .. } => event is Done || event is Failed,
            UpsertState::Flushing { .. } => event is Done || event is Failed || event is TimedOut,
            UpsertState::ShuttingDownOld { .. } => event is Done,
            UpsertState::CreatingDirectories { .. } => event is Done || event is Failed,
            UpsertState::WritingConf { .. } => event is Done || event is Failed,
            UpsertState::Starting { .. } => event is Started || event is Failed,
            UpsertState::ShuttingDownNew { .. } => event is Done,
            UpsertState::Ended => false,
        }
    }

    /// How many steps there are at most until the end.
    pub open spec fn steps_left(self) -> nat {
        match self {
            UpsertState::ShuttingDownOld { .. } => 5,
            UpsertState::CreatingDirectories { .. } => 4,
            UpsertState::WritingConf { .. } => 3,
            UpsertState::Starting { .. } => 2,
            UpsertState::WritingSettings { .. } => 2,
            UpsertState::Flushing { .. } => 1,
            UpsertState::ShuttingDownNew { .. } => 1,
            UpsertState::Ended => 0,
        }
    }
}

/// An answer.
pub open spec fn answer(slots: Slots, r: Result<Option<u64>, UpsertLocationError>) -> (
    UpsertState,
    Slots,
    UpsertAction,
) {
    (UpsertState::Ended, slots, UpsertAction::Answer { r })
}

/// The slots after the guard was given up.
pub open spec fn given_up(tenants: TenantsMap, guard: SlotGuard) -> Slots {
    if tenants.is_open() {
        tenant_map::released(tenants.slots(), guard.tenant_shard_id, guard.old_value)
    } else {
        tenants.slots()
    }
}

/// What a request leads to: the state, the slots and the action.
pub open spec fn begun(
    tenants: TenantsMap,
    req: UpsertRequest,
    barrier: u64,
    completion: u64,
) -> (UpsertState, Slots, UpsertAction) {
    let slots = tenants.slots();
    match tenant_ops::fast_path(tenants, req.id, req.conf) {
        Err(e) => answer(slots, Err(e)),
        Ok((FastPath::UpdatedAttached { handle }, updated)) => (
            UpsertState::WritingSettings { attached: Some(handle) },
            slots.insert(req.id, updated->0),
            UpsertAction::TakeOver { handle, conf: req.conf },
        ),
        Ok((FastPath::UpdatedSecondary { handle }, updated)) => (
            UpsertState::WritingSettings { attached: None },
            slots.insert(req.id, updated->0),
            UpsertAction::TakeOver { handle, conf: req.conf },
        ),
        Ok((FastPath::General, _)) => match tenant_map::refusal(
            tenants,
            req.id,
            TenantSlotAcquireMode::Any,
        ) {
            Some(why) => answer(slots, Err(tenant_ops::upsert_refusal(why))),
            None => {
                let guard = SlotGuard {
                    tenant_shard_id: req.id,
                    old_value: tenant_map::slot_value(slots, req.id),
                    upserted: false,
                    completion,
                };
                let marked = slots.insert(req.id, TenantSlot::InProgress(barrier));
                match tenant_ops::old_location(guard.old_value) {
                    OldLocation::Attached { handle, flush_deletions } => (
                        UpsertState::ShuttingDownOld { guard },
                        marked,
                        UpsertAction::ShutDownAttached { handle, flush_deletions },
                    ),
                    OldLocation::Secondary { handle } => (
                        UpsertState::ShuttingDownOld { guard },
                        marked,
                        UpsertAction::ShutDownSecondary { handle },
                    ),
                    OldLocation::Vacant => (
                        UpsertState::CreatingDirectories { guard, spawn_mode: req.spawn_mode },
                        marked,
                        UpsertAction::CreateDirectories,
                    ),
                }
            },
        },
    }
}

/// What putting the new tenant into its slot leads to.
pub open spec fn placed(tenants: TenantsMap, guard: SlotGuard, slot: TenantSlot) -> (
    UpsertState,
    Slots,
    UpsertAction,
) {
    match tenant_map::upsert_obstacle(tenants, guard, slot) {
        None => answer(
            tenants.slots().insert(guard.tenant_shard_id, slot),
            match tenant_map::slot_value(tenants.slots(), guard.tenant_shard_id) {
                Some(TenantSlot::InProgress(_)) => Ok(tenant_ops::attached_handle(slot)),
                None => Err(UpsertLocationError::Internal(SlotBug::MissingMarker)),
                Some(_) => Err(UpsertLocationError::Internal(SlotBug::UnexpectedContents)),
            },
        ),
        Some(TenantSlotUpsertError::InternalError(bug)) => answer(
            given_up(tenants, guard),
            Err(UpsertLocationError::Internal(bug)),
        ),
        Some(TenantSlotUpsertError::MapState(s)) => answer(
            given_up(tenants, guard),
            Err(UpsertLocationError::Unavailable(s)),
        ),
        Some(TenantSlotUpsertError::ShuttingDown(slot, completion)) => (
            UpsertState::ShuttingDownNew { completion },
            tenants.slots(),
            UpsertAction::ShutDownNew { slot },
        ),
    }
}

/// A guard whose old value has been shut down, and how the new tenant is to be started.  A
/// tenant that was attached is dropped, and the new one looks for what it left behind.
pub open spec fn cleared(guard: SlotGuard, spawn_mode: SpawnMode) -> (SlotGuard, SpawnMode) {
    match guard.old_value {
        Some(TenantSlot::Attached(_)) => (
            SlotGuard { old_value: None, ..guard },
            SpawnMode::Normal,
        ),
        other => (
            SlotGuard { old_value: tenant_map::shut_down_value(other), ..guard },
            spawn_mode,
        ),
    }
}

/// What an event leads to: the state, the slots and the action.
pub open spec fn stepped(
    tenants: TenantsMap,
    req: UpsertRequest,
    state: UpsertState,
    event: UpsertEvent,
) -> (UpsertState, Slots, UpsertAction) {
    let slots = tenants.slots();
    match (state, event) {
        (UpsertState::WritingSettings { attached }, UpsertEvent::Done) => if attached is Some
            && tenant_ops::wants_flush(req.conf, req.flush) {
            (
                UpsertState::Flushing { handle: attached->0 },
                slots,
                UpsertAction::Flush { handle: attached->0 },
            )
        } else {
            answer(slots, Ok(attached))
        },
        (UpsertState::Flushing { .. }, UpsertEvent::Failed) => answer(
            slots,
            Err(UpsertLocationError::Flush),
        ),
        (UpsertState::Flushing { handle }, _) => answer(slots, Ok(Some(handle))),
        (UpsertState::ShuttingDownOld { guard }, _) => {
            let (guard, spawn_mode) = cleared(guard, req.spawn_mode);
            (
                UpsertState::CreatingDirectories { guard, spawn_mode },
                slots,
                UpsertAction::CreateDirectories,
            )
        },
        (UpsertState::CreatingDirectories { guard, spawn_mode }, UpsertEvent::Done) => (
            UpsertState::WritingConf { guard, spawn_mode },
            slots,
            UpsertAction::WriteConf { conf: req.conf },
        ),
        (UpsertState::WritingConf { guard, spawn_mode }, UpsertEvent::Done) => match tenant_ops::new_secondary(
            req.id,
            req.conf,
            req.handle,
        ) {
            Some(slot) => placed(tenants, guard, slot),
            None => (
                UpsertState::Starting { guard },
                slots,
                UpsertAction::Spawn { mode: spawn_mode, conf: req.conf },
            ),
        },
        (UpsertState::Starting { guard }, UpsertEvent::Started { state }) => placed(
            tenants,
            guard,
            tenant_ops::new_attached(req.id, req.conf, state, req.handle)->0,
        ),
        (UpsertState::ShuttingDownNew { .. }, _) => answer(
            slots,
            Err(UpsertLocationError::Unavailable(TenantMapError::ShuttingDown)),
        ),
        (state, _) => answer(
            match state.guard() {
                Some(guard) => given_up(tenants, guard),
                None => slots,
            },
            Err(UpsertLocationError::Other),
        ),
    }
}

/// Begins to set a location.  `barrier` is what others wait on while the slot is acquired,
/// and `completion` releases them.
pub fn upsert_location(tenants: &mut TenantsMap, req: &UpsertRequest, barrier: u64, completion: u64) -> (r: (
    UpsertState,
    UpsertAction,
))
    requires
        old(tenants).wf(),
    ensures
        final(tenants).wf(),
        final(tenants).is_open() == old(tenants).is_open(),
        final(tenants).is_shutting_down() == old(tenants).is_shutting_down(),
        (r.0, final(tenants).slots(), r.1) == begun(*old(tenants), *req, barrier, completion),
        r.0.wf(*req),
{
    match tenant_ops::upsert_fast_path(tenants, req.id, &req.conf) {
        Err(e) => (UpsertState::Ended, UpsertAction::Answer { r: Err(e) }),
        Ok(FastPath::UpdatedAttached { handle }) => (
            UpsertState::WritingSettings { attached: Some(handle) },
            UpsertAction::TakeOver { handle, conf: req.conf },
        ),
        Ok(FastPath::UpdatedSecondary { handle }) => (
            UpsertState::WritingSettings { attached: None },
            UpsertAction::TakeOver { handle, conf: req.conf },
        ),
        Ok(FastPath::General) => match tenant_ops::upsert_acquire(
            tenants,
            req.id,
            barrier,
            completion,
        ) {
            Err(e) => (UpsertState::Ended, UpsertAction::Answer { r: Err(e) }),
            Ok((guard, OldLocation::Attached { handle, flush_deletions })) => (
                UpsertState::ShuttingDownOld { guard },
                UpsertAction::ShutDownAttached { handle, flush_deletions },
            ),
            Ok((guard, OldLocation::Secondary { handle })) => (
                UpsertState::ShuttingDownOld { guard },
                UpsertAction::ShutDownSecondary { handle },
            ),
            Ok((guard, OldLocation::Vacant)) => (
                UpsertState::CreatingDirectories { guard, spawn_mode: req.spawn_mode },
                UpsertAction::CreateDirectories,
            ),
        },
    }
}

/// Puts the new tenant into its slot.
fn place(tenants: &mut TenantsMap, guard: SlotGuard, slot: TenantSlot) -> (r: (
    UpsertState,
    UpsertAction,
))
    requires
        old(tenants).wf(),
        guard.wf(),
        !guard.upserted,
    ensures
        final(tenants).wf(),
        final(tenants).is_open() == old(tenants).is_open(),
        final(tenants).is_shutting_down() == old(tenants).is_shutting_down(),
        (r.0, final(tenants).slots(), r.1) == placed(*old(tenants), guard, slot),
{
    match tenant_ops::upsert_finish(guard, tenants, slot) {
        UpsertEnd::Done { attached } => (
            UpsertState::Ended,
            UpsertAction::Answer { r: Ok(attached) },
        ),
        UpsertEnd::ShutDownNew { slot, completion } => (
            UpsertState::ShuttingDownNew { completion },
            UpsertAction::ShutDownNew { slot },
        ),
        UpsertEnd::Failed(e) => (UpsertState::Ended, UpsertAction::Answer { r: Err(e) }),
    }
}

/// Gives the slot up because something else failed.
fn give_up(tenants: &mut TenantsMap, guard: SlotGuard) -> (r: (UpsertState, UpsertAction))
    requires
        old(tenants).wf(),
        guard.wf(),
        !guard.upserted,
    ensures
        final(tenants).wf(),
        final(tenants).is_open() == old(tenants).is_open(),
        final(tenants).is_shutting_down() == old(tenants).is_shutting_down(),
        (r.0, final(tenants).slots(), r.1) == answer(
            given_up(*old(tenants), guard),
            Err(UpsertLocationError::Other),
        ),
{
    guard.release(tenants);
    (UpsertState::Ended, UpsertAction::Answer { r: Err(UpsertLocationError::Other) })
}

/// Goes on with setting a location after the last action has ended.
pub fn upsert_step(
    tenants: &mut TenantsMap,
    req: &UpsertRequest,
    state: UpsertState,
    event: UpsertEvent,
) -> (r: (UpsertState, UpsertAction))
    requires
        old(tenants).wf(),
        state.wf(*req),
        state.expects(event),
    ensures
        final(tenants).wf(),
        final(tenants).is_open() == old(tenants).is_open(),
        final(tenants).is_shutting_down() == old(tenants).is_shutting_down(),
        (r.0, final(tenants).slots(), r.1) == stepped(*old(tenants), *req, state, event),
        r.0.wf(*req),
{
    match (state, event) {
        (UpsertState::WritingSettings { attached: Some(handle) }, UpsertEvent::Done) => {
            if tenant_ops::flush_wanted(&req.conf, req.flush) {
                (UpsertState::Flushing { handle }, UpsertAction::Flush { handle })
            } else {
                (UpsertState::Ended, UpsertAction::Answer { r: Ok(Some(handle)) })
            }
        },
        (UpsertState::WritingSettings { attached: None }, UpsertEvent::Done) => (
            UpsertState::Ended,
            UpsertAction::Answer { r: Ok(None) },
        ),
        (UpsertState::Flushing { handle }, event) => {
            let end = match event {
                UpsertEvent::Failed => FlushEnd::Failed,
                UpsertEvent::TimedOut => FlushEnd::TimedOut,
                _ => FlushEnd::Done,
            };
            match tenant_ops::after_flush(end) {
                Ok(()) => (UpsertState::Ended, UpsertAction::Answer { r: Ok(Some(handle)) }),
                Err(e) => (UpsertState::Ended, UpsertAction::Answer { r: Err(e) }),
            }
        },
        (UpsertState::ShuttingDownOld { guard }, _) => {
            let mut guard = guard;
            let spawn_mode = tenant_ops::old_location_shut_down(&mut guard, req.spawn_mode);
            (
                UpsertState::CreatingDirectories { guard, spawn_mode },
                UpsertAction::CreateDirectories,
            )
        },
        (UpsertState::CreatingDirectories { guard, spawn_mode }, UpsertEvent::Done) => (
            UpsertState::WritingConf { guard, spawn_mode },
            UpsertAction::WriteConf { conf: req.conf },
        ),
        (UpsertState::CreatingDirectories { guard, .. }, _) => give_up(tenants, guard),
        (UpsertState::WritingConf { guard, spawn_mode }, UpsertEvent::Done) => {
            match tenant_ops::secondary_slot(req.id, &req.conf, req.handle) {
                Some(slot) => place(tenants, guard, slot),
                None => (
                    UpsertState::Starting { guard },
                    UpsertAction::Spawn { mode: spawn_mode, conf: req.conf },
                ),
            }
        },
        (UpsertState::WritingConf { guard, .. }, _) => give_up(tenants, guard),
        (UpsertState::Starting { guard }, UpsertEvent::Started { state }) => {
            match tenant_ops::attached_slot(req.id, &req.conf, state, req.handle) {
                Some(slot) => place(tenants, guard, slot),
                None => give_up(tenants, guard),
            }
        },
        (UpsertState::Starting { guard }, _) => give_up(tenants, guard),
        (UpsertState::ShuttingDownNew { .. }, _) => (
            UpsertState::Ended,
            UpsertAction::Answer {
                r: Err(UpsertLocationError::Unavailable(TenantMapError::ShuttingDown)),
            },
        ),
        (_, _) => (
            UpsertState::Ended,
            UpsertAction::Answer { r: Err(UpsertLocationError::Other) },
        ),
    }
}

/// Setting a location ends, after five steps at the most.
pub proof fn upserts_end(
    tenants: TenantsMap,
    req: UpsertRequest,
    state: UpsertState,
    event: UpsertEvent,
    barrier: u64,
    completion: u64,
)
    requires
        state.wf(req),
        state.expects(event),
    ensures
        begun(tenants, req, barrier, completion).0.steps_left() <= 5,
        stepped(tenants, req, state, event).0.steps_left() < state.steps_left(),
        stepped(tenants, req, state, event).0 is Ended <==> stepped(
            tenants,
            req,
            state,
            event,
        ).2 is Answer,
{
}

/// While the slot is acquired and stays so, no slot changes.
pub proof fn upserts_hold_their_slot(
    tenants: TenantsMap,
    req: UpsertRequest,
    state: UpsertState,
    event: UpsertEvent,
)
    requires
        state.wf(req),
        state.expects(event),
        stepped(tenants, req, state, event).0.guard() is Some,
    ensures
        state.guard() is Some,
        stepped(tenants, req, state, event).1 == tenants.slots(),
        stepped(tenants, req, state, event).0.guard()->0.tenant_shard_id == req.id,
{
}

/// A tenant is started only after its configuration was written and what was in its slot has
/// been shut down.  One that takes the place of an attached tenant looks for what that one
/// left behind, even if the caller meant to create it.
pub proof fn tenants_start_after_the_old_ones_end(
    tenants: TenantsMap,
    req: UpsertRequest,
    state: UpsertState,
    event: UpsertEvent,
)
    requires
        state.wf(req),
        state.expects(event),
    ensures
        stepped(tenants, req, state, event).2 is Spawn ==> state is WritingConf && event is Done
            && tenant_map::old_shut_down(state.guard()->0.old_value),
        state is ShuttingDownOld && (state.guard()->0.old_value matches Some(
            TenantSlot::Attached(_),
        )) ==> (stepped(tenants, req, state, event).0 matches UpsertState::CreatingDirectories {
            spawn_mode,
            ..
        } && spawn_mode == SpawnMode::Normal),
{
}

/// The configuration that is written, handed to a running tenant or started with is always the
/// one that was requested.
pub proof fn only_the_requested_configuration_is_used(
    tenants: TenantsMap,
    req: UpsertRequest,
    state: UpsertState,
    event: UpsertEvent,
    barrier: u64,
    completion: u64,
)
    requires
        state.wf(req),
        state.expects(event),
    ensures
        used_conf(begun(tenants, req, barrier, completion).2) matches Some(conf) ==> conf
            == req.conf,
        used_conf(stepped(tenants, req, state, event).2) matches Some(conf) ==> conf == req.conf,
{
}

/// The configuration that an action carries.
pub open spec fn used_conf(action: UpsertAction) -> Option<LocationConf> {
    match action {
        UpsertAction::TakeOver { conf, .. } => Some(conf),
        UpsertAction::WriteConf { conf } => Some(conf),
        UpsertAction::Spawn { conf, .. } => Some(conf),
        _ => None,
    }
}

/// The settings that the tenant in a slot runs with.
pub open spec fn settings_in_force(slots: Slots, id: TenantShardId) -> Option<TenantConf> {
    match tenant_map::slot_value(slots, id) {
        Some(TenantSlot::Attached(t)) => Some(t.tenant_conf),
        Some(TenantSlot::Secondary(s)) => Some(s.tenant_conf),
        _ => None,
    }
}

/// A request that succeeds leaves the requested settings in force: a tenant that goes on running
/// has taken them over before they are written, and a new one has them from the start.
pub proof fn requested_settings_come_into_force(
    tenants: TenantsMap,
    req: UpsertRequest,
    state: UpsertState,
    event: UpsertEvent,
    barrier: u64,
    completion: u64,
)
    requires
        state.wf(req),
        state.expects(event),
    ensures
        begun(tenants, req, barrier, completion).2 is TakeOver ==> settings_in_force(
            begun(tenants, req, barrier, completion).1,
            req.id,
        ) == Some(req.conf.tenant_conf),
        state.guard() is Some && (stepped(tenants, req, state, event).2 matches UpsertAction::Answer {
            r: Ok(_),
        }) ==> settings_in_force(stepped(tenants, req, state, event).1, req.id) == Some(
            req.conf.tenant_conf,
        ),
        state.guard() is None ==> stepped(tenants, req, state, event).1 == tenants.slots(),
{
}

/// An attached tenant whose generation stays goes on running: its slot is never acquired, it has
/// the requested mode and settings at once, these are what is written, and the request is answered
/// with that same tenant.
pub proof fn configurations_change_in_place(
    tenants: TenantsMap,
    req: UpsertRequest,
    t: Tenant,
    later: TenantsMap,
    barrier: u64,
    completion: u64,
)
    requires
        tenants is Open,
        tenant_map::slot_value(tenants.slots(), req.id) == Some(TenantSlot::Attached(t)),
        req.conf.mode matches LocationMode::Attached(a) && a.generation == t.generation,
        !req.flush,
    ensures
        begun(tenants, req, barrier, completion) == (
            UpsertState::WritingSettings { attached: Some(t.handle) },
            tenants.slots().insert(
                req.id,
                TenantSlot::Attached(
                    Tenant {
                        attach_mode: req.conf.mode->Attached_0.attach_mode,
                        tenant_conf: req.conf.tenant_conf,
                        ..t
                    },
                ),
            ),
            UpsertAction::TakeOver { handle: t.handle, conf: req.conf },
        ),
        stepped(
            later,
            req,
            UpsertState::WritingSettings { attached: Some(t.handle) },
            UpsertEvent::Done,
        ) == answer(later.slots(), Ok(Some(t.handle))),
{
}

/// A request that is answered with an attached tenant leaves it in its slot.
pub proof fn answers_name_the_tenant_in_the_slot(
    tenants: TenantsMap,
    req: UpsertRequest,
    state: UpsertState,
    event: UpsertEvent,
    handle: u64,
)
    requires
        state.wf(req),
        state.expects(event),
        state.guard() is Some,
        stepped(tenants, req, state, event).2 == (UpsertAction::Answer { r: Ok(Some(handle)) }),
    ensures
        tenants is Open,
        handle == req.handle,
        tenant_map::slot_value(stepped(tenants, req, state, event).1, req.id) matches Some(
            TenantSlot::Attached(t),
        ) && t.handle == handle && !t.shut_down,
{
}

/// A request that fails while its slot is acquired leaves the slot empty: what was in it has
/// been shut down by then.
pub proof fn failed_upserts_leave_the_slot_empty(
    tenants: TenantsMap,
    req: UpsertRequest,
    state: UpsertState,
)
    requires
        state.wf(req),
        tenants is Open,
        state.guard() is Some,
        state.expects(UpsertEvent::Failed),
    ensures
        stepped(tenants, req, state, UpsertEvent::Failed).1 == tenants.slots().remove(req.id),
{
    assert(stepped(tenants, req, state, UpsertEvent::Failed).1 =~= tenants.slots().remove(req.id));
}

/// Where the settings cannot be taken over in place, the slot is marked, and what is in it is
/// shut down, or the directories are created where there is nothing; the slot cannot be marked
/// while another operation is under way.
pub proof fn replacements_begin_with_the_old_tenant(
    tenants: TenantsMap,
    req: UpsertRequest,
    barrier: u64,
    completion: u64,
)
    requires
        tenants is Open,
        tenant_ops::fast_path(tenants, req.id, req.conf) == Ok::<
            (FastPath, Option<TenantSlot>),
            UpsertLocationError,
        >((FastPath::General, None)),
    ensures
        ({
            let (state, slots, action) = begun(tenants, req, barrier, completion);
            let old = tenant_map::slot_value(tenants.slots(), req.id);
            if old is Some && old->0 is InProgress {
                &&& state is Ended
                &&& slots == tenants.slots()
                &&& action == (UpsertAction::Answer {
                    r: Err::<Option<u64>, UpsertLocationError>(UpsertLocationError::InProgress),
                })
            } else {
                &&& slots == tenants.slots().insert(req.id, TenantSlot::InProgress(barrier))
                &&& state.guard() == Some(
                    SlotGuard {
                        tenant_shard_id: req.id,
                        old_value: old,
                        upserted: false,
                        completion,
                    },
                )
                &&& old matches Some(TenantSlot::Attached(t)) ==> state is ShuttingDownOld && action
                    == (UpsertAction::ShutDownAttached {
                    handle: t.handle,
                    flush_deletions: t.attach_mode != tenant_map::AttachmentMode::Stale,
                })
                &&& old matches Some(TenantSlot::Secondary(s)) ==> state is ShuttingDownOld
                    && action == (UpsertAction::ShutDownSecondary { handle: s.handle })
                &&& old is None ==> action == UpsertAction::CreateDirectories && (state matches
                    UpsertState::CreatingDirectories { spawn_mode, .. } && spawn_mode
                    == req.spawn_mode)
            }
        }),
{
}

/// Once the old tenant is shut down the directories are created, then the configuration is
/// written, and then a tenant that is to be attached is started as it was asked for.
pub proof fn steps_of_a_replacement(
    tenants: TenantsMap,
    req: UpsertRequest,
    guard: SlotGuard,
    spawn_mode: SpawnMode,
)
    ensures
        ({
            let (state, slots, action) = stepped(
                tenants,
                req,
                UpsertState::ShuttingDownOld { guard },
                UpsertEvent::Done,
            );
            &&& slots == tenants.slots()
            &&& action == UpsertAction::CreateDirectories
            &&& state.guard() is Some
            &&& state.guard()->0.completion == guard.completion
            &&& state.guard()->0.old_value == if guard.old_value is Some && guard.old_value->0
                is Attached {
                None
            } else {
                tenant_map::shut_down_value(guard.old_value)
            }
            &&& state matches UpsertState::CreatingDirectories { spawn_mode: mode, .. } && mode
                == if guard.old_value is Some && guard.old_value->0 is Attached {
                SpawnMode::Normal
            } else {
                req.spawn_mode
            }
        }),
        stepped(
            tenants,
            req,
            UpsertState::CreatingDirectories { guard, spawn_mode },
            UpsertEvent::Done,
        ) == (
            UpsertState::WritingConf { guard, spawn_mode },
            tenants.slots(),
            UpsertAction::WriteConf { conf: req.conf },
        ),
        req.conf.mode is Attached ==> stepped(
            tenants,
            req,
            UpsertState::WritingConf { guard, spawn_mode },
            UpsertEvent::Done,
        ) == (
            UpsertState::Starting { guard },
            tenants.slots(),
            UpsertAction::Spawn { mode: spawn_mode, conf: req.conf },
        ),
{
}

/// Once its configuration is written a secondary tenant is in its slot; once it was started an
/// attached one is, and the answer names it.
pub proof fn new_tenants_take_their_slot(
    tenants: TenantsMap,
    req: UpsertRequest,
    guard: SlotGuard,
    spawn_mode: SpawnMode,
    state: TenantState,
)
    requires
        tenants is Open,
        guard.tenant_shard_id == req.id,
        tenant_map::old_shut_down(guard.old_value),
        tenant_map::slot_value(tenants.slots(), req.id) matches Some(slot) && slot is InProgress,
    ensures
        req.conf.mode is Secondary ==> stepped(
            tenants,
            req,
            UpsertState::WritingConf { guard, spawn_mode },
            UpsertEvent::Done,
        ) == (
            UpsertState::Ended,
            tenants.slots().insert(
                req.id,
                tenant_ops::new_secondary(req.id, req.conf, req.handle)->0,
            ),
            UpsertAction::Answer { r: Ok::<Option<u64>, UpsertLocationError>(None) },
        ),
        req.conf.mode is Attached ==> stepped(
            tenants,
            req,
            UpsertState::Starting { guard },
            UpsertEvent::Started { state },
        ) == (
            UpsertState::Ended,
            tenants.slots().insert(
                req.id,
                tenant_ops::new_attached(req.id, req.conf, state, req.handle)->0,
            ),
            UpsertAction::Answer { r: Ok::<Option<u64>, UpsertLocationError>(Some(req.handle)) },
        ),
{
}

/// A tenant that was started while the map began to shut down is shut down again, and the
/// request fails.
pub proof fn new_tenants_are_shut_down_at_shutdown(
    tenants: TenantsMap,
    req: UpsertRequest,
    guard: SlotGuard,
    state: TenantState,
)
    requires
        tenants is ShuttingDown,
        req.conf.mode is Attached,
        tenant_map::old_shut_down(guard.old_value),
    ensures
        stepped(
            tenants,
            req,
            UpsertState::Starting { guard },
            UpsertEvent::Started { state },
        ) == (
            UpsertState::ShuttingDownNew { completion: guard.completion },
            tenants.slots(),
            UpsertAction::ShutDownNew {
                slot: tenant_ops::new_attached(req.id, req.conf, state, req.handle)->0,
            },
        ),
        stepped(
            tenants,
            req,
            UpsertState::ShuttingDownNew { completion: guard.completion },
            UpsertEvent::Done,
        ).2 == (UpsertAction::Answer {
            r: Err::<Option<u64>, UpsertLocationError>(
                UpsertLocationError::Unavailable(TenantMapError::ShuttingDown),
            ),
        }),
{
}

/// Each failure is answered as what it is: an upload that failed as such, one that took too long
/// as a success, and everything else that failed as any other error.
pub proof fn failures_are_answered(
    tenants: TenantsMap,
    req: UpsertRequest,
    state: UpsertState,
    handle: u64,
)
    requires
        state.wf(req),
        state.expects(UpsertEvent::Failed),
    ensures
        stepped(tenants, req, state, UpsertEvent::Failed).2 == (UpsertAction::Answer {
            r: Err::<Option<u64>, UpsertLocationError>(
                if state is Flushing {
                    UpsertLocationError::Flush
                } else {
                    UpsertLocationError::Other
                },
            ),
        }),
        stepped(
            tenants,
            req,
            UpsertState::Flushing { handle },
            UpsertEvent::TimedOut,
        ).2 == (UpsertAction::Answer { r: Ok::<Option<u64>, UpsertLocationError>(Some(handle)) }),
        stepped(tenants, req, UpsertState::Flushing { handle }, UpsertEvent::Done).2 == (
        UpsertAction::Answer { r: Ok::<Option<u64>, UpsertLocationError>(Some(handle)) }),
{
}

/// Settings that were taken over and written are answered at once, with the tenant where one is
/// attached; only a tenant that goes stale is flushed first, where the caller waits for it.
pub proof fn written_settings_are_answered(
    tenants: TenantsMap,
    req: UpsertRequest,
    handle: u64,
)
    ensures
        ({
            let stale = req.conf.mode is Attached && req.conf.mode->Attached_0.attach_mode
                == tenant_map::AttachmentMode::Stale;
            let (state, slots, action) = stepped(
                tenants,
                req,
                UpsertState::WritingSettings { attached: Some(handle) },
                UpsertEvent::Done,
            );
            &&& slots == tenants.slots()
            &&& req.flush && stale ==> state == (UpsertState::Flushing { handle }) && action == (
            UpsertAction::Flush { handle })
            &&& !(req.flush && stale) ==> action == (UpsertAction::Answer {
                r: Ok::<Option<u64>, UpsertLocationError>(Some(handle)),
            })
        }),
        stepped(
            tenants,
            req,
            UpsertState::WritingSettings { attached: None },
            UpsertEvent::Done,
        ).2 == (UpsertAction::Answer { r: Ok::<Option<u64>, UpsertLocationError>(None) }),
{
}

/// A slot that is given up is released while the map is open, and left to the shutdown otherwise.
pub proof fn slots_are_given_up_while_open(tenants: TenantsMap, guard: SlotGuard)
    ensures
        !(tenants is Open) ==> given_up(tenants, guard) == tenants.slots(),
        tenants is Open && tenants.slots().dom().contains(guard.tenant_shard_id) ==> given_up(
            tenants,
            guard,
        ) == if tenant_map::old_shut_down(guard.old_value) {
            tenants.slots().remove(guard.tenant_shard_id)
        } else {
            tenants.slots().insert(guard.tenant_shard_id, guard.old_value->0)
        },
        tenants is Open && !tenants.slots().dom().contains(guard.tenant_shard_id) ==> given_up(
            tenants,
            guard,
        ) == tenants.slots(),
{
}

} // verus!
