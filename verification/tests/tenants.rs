use neon_core::base::ordered_map::OrderedMap;
use neon_core::pageserver::ids::{
    Generation, ShardCount, ShardIdentity, ShardNumber, TenantId, TenantShardId, TimelineId,
};
use neon_core::pageserver::location::{
    AttachedLocationConfig, LocationConf, LocationMode, SecondaryLocationConfig, TenantConf,
};
use neon_core::pageserver::shard_split::{
    acquire_parent, child_dirs, child_links, child_location, create_dir_tolerated, finish_split,
    goes_on_after, link_tolerated, plan_split, relative_layers, wait_targets, ChildDir, FileError,
    LinkEnd, SplitError,
};
use neon_core::pageserver::startup::{
    check_spawn, emergency_generations, generation_source, judge_tenant_dir, open_tenants, settle,
    startup_action, GenerationSource, LoadedConf, SpawnRefusal, StartupAction, StartupRun,
    TenantDir,
};
use neon_core::pageserver::tenant_manager::{
    after_barrier, get_active_tenant, get_tenant, list_tenants, shutdown_all_tenants, ActiveTenant,
    GetActiveTenantError, GetTenantError, ShutdownStart, ShutdownWait, TaskEnd, TenantManager,
    WaitAction, WaitEnd,
};
use neon_core::pageserver::tenant_map::{
    tenant_map_acquire_slot, tenant_map_peek_slot, AttachmentMode, SecondaryTenant, ShardSelector,
    SlotBug, SlotGuard, Tenant, TenantMapError, TenantSlot, TenantSlotAcquireMode, TenantSlotError,
    TenantSlotPeekMode, TenantSlotUpsertError, TenantState, TenantsMap, TenantsMapRemoveResult,
};
use neon_core::pageserver::tenant_ops::{
    after_flush, attached_slot, delete_acquire, delete_after_wait, detach_set_aside, flush_wanted,
    immediate_gc, load_acquire, new_tenant_config, old_location_shut_down, remove_acquire,
    remove_after_cleanup, remove_after_shutdown, reset_acquire, reset_after_shutdown,
    secondary_slot, set_new_tenant_config, upsert_acquire, upsert_fast_path, upsert_finish,
    ActivationEnd, DeleteTenantError, FastPath, FlushEnd, GcRun, OldLocation, Removal, ResetError,
    SetNewTenantConfigError, SpawnMode, TenantStateError, UpsertEnd, UpsertLocationError,
};

fn shard(tenant: u128, number: u8, count: u8) -> TenantShardId {
    TenantShardId {
        tenant_id: TenantId(tenant),
        shard_number: ShardNumber(number),
        shard_count: ShardCount(count),
    }
}

fn whole(tenant: u128) -> TenantShardId {
    TenantShardId::unsharded(TenantId(tenant))
}

fn identity(id: TenantShardId) -> ShardIdentity {
    ShardIdentity {
        number: id.shard_number,
        count: id.shard_count,
        stripe_size: 8,
    }
}

fn tenant(id: TenantShardId, state: TenantState) -> Tenant {
    Tenant {
        tenant_shard_id: id,
        state,
        generation: Generation::Valid(5),
        attach_mode: AttachmentMode::Single,
        shard_identity: identity(id),
        tenant_conf: TenantConf(1),
        shut_down: false,
        handle: 100 + id.tenant_id.0 as u64,
    }
}

fn attached(id: TenantShardId, state: TenantState) -> TenantSlot {
    TenantSlot::Attached(tenant(id, state))
}

fn secondary(id: TenantShardId) -> TenantSlot {
    TenantSlot::Secondary(SecondaryTenant {
        tenant_shard_id: id,
        shard_identity: identity(id),
        tenant_conf: TenantConf(1),
        warm: true,
        cancelled: false,
        shut_down: false,
        handle: 200 + id.tenant_id.0 as u64,
    })
}

fn broken(why: &str) -> TenantState {
    TenantState::Broken {
        reason: why.to_string(),
        backtrace: String::new(),
    }
}

fn map(slots: Vec<(TenantShardId, TenantSlot)>) -> OrderedMap<TenantShardId, TenantSlot> {
    let mut m = OrderedMap::new();
    for (id, slot) in slots {
        m.insert(id, slot);
    }
    m
}

fn open(slots: Vec<(TenantShardId, TenantSlot)>) -> TenantsMap {
    TenantsMap::Open(map(slots))
}

fn is_attached(t: &TenantsMap, id: TenantShardId) -> bool {
    t.get(&id).is_some()
}

fn is_vacant(t: &TenantsMap, id: TenantShardId) -> bool {
    matches!(
        tenant_map_peek_slot(t, &id, TenantSlotPeekMode::Write),
        Ok(None)
    )
}

#[test]
fn slots_are_looked_up() {
    let t = open(vec![
        (whole(1), attached(whole(1), TenantState::Active)),
        (whole(2), secondary(whole(2))),
        (whole(3), TenantSlot::InProgress(9)),
        (whole(4), attached(whole(4), broken("bad"))),
        (whole(5), attached(whole(5), TenantState::Loading)),
    ]);
    assert_eq!(get_tenant(&t, whole(1), true).ok().unwrap().handle, 101);
    assert!(matches!(get_tenant(&t, whole(2), false), Err(GetTenantError::NotFound(_))));
    assert!(matches!(get_tenant(&t, whole(3), false), Err(GetTenantError::NotActive(_))));
    assert!(matches!(get_tenant(&t, whole(4), true), Err(GetTenantError::Broken(r)) if r == "bad"));
    assert!(get_tenant(&t, whole(4), false).is_ok());
    assert!(matches!(get_tenant(&t, whole(5), true), Err(GetTenantError::NotActive(_))));
    assert!(matches!(get_tenant(&t, whole(6), true), Err(GetTenantError::NotFound(TenantId(6)))));
    assert_eq!(t.len(), 5);
    let m = TenantManager { tenants: t };
    assert!(m.get_attached_tenant_shard(whole(1), true).is_ok());
    assert_eq!(m.get_secondary_tenant_shard(whole(2)).unwrap().handle, 202);
    assert!(m.get_secondary_tenant_shard(whole(1)).is_none());
    assert!(m.manages_tenant_shard(whole(3)));
    assert!(!m.manages_tenant_shard(whole(6)));
    assert_eq!(m.get_attached_active_tenant_shards(), vec![whole(1)]);
    assert_eq!(m.secondary_tenants(), vec![whole(2)]);
    assert_eq!(m.list().len(), 5);
    let listed = list_tenants(&m.tenants).ok().unwrap();
    assert_eq!(listed.iter().map(|l| l.0).collect::<Vec<_>>(), vec![whole(1), whole(4), whole(5)]);
    assert!(list_tenants(&TenantsMap::Initializing).is_err());
}

#[test]
fn the_map_answers_by_its_phase() {
    let init = TenantsMap::Initializing;
    assert!(matches!(
        tenant_map_peek_slot(&init, &whole(1), TenantSlotPeekMode::Read),
        Err(TenantMapError::StillInitializing)
    ));
    assert_eq!(init.len(), 0);
    let down = TenantsMap::ShuttingDown(map(vec![(whole(1), secondary(whole(1)))]));
    assert!(tenant_map_peek_slot(&down, &whole(1), TenantSlotPeekMode::Read).is_ok());
    assert!(tenant_map_peek_slot(&down, &whole(1), TenantSlotPeekMode::Write).is_err());
    assert!(matches!(
        tenant_map_peek_slot(&down, &whole(2), TenantSlotPeekMode::Read),
        Err(TenantMapError::ShuttingDown)
    ));
    assert!(!TenantMapError::ShuttingDown.message().is_empty());
}

#[test]
fn shards_are_resolved() {
    let a = shard(1, 0, 2);
    let b = shard(1, 1, 2);
    let t = open(vec![
        (a, secondary(a)),
        (b, attached(b, TenantState::Active)),
        (whole(2), attached(whole(2), TenantState::Loading)),
        (whole(3), TenantSlot::InProgress(4)),
    ]);
    assert_eq!(t.first_attached_shard(&TenantId(1)), Some(b));
    assert_eq!(t.resolve_attached_shard(&TenantId(1), ShardSelector::First), Some(b));
    assert_eq!(t.resolve_attached_shard(&TenantId(1), ShardSelector::Zero), None);
    assert_eq!(
        t.resolve_attached_shard(&TenantId(1), ShardSelector::Page(ShardNumber(1))),
        Some(b)
    );
    assert_eq!(
        t.resolve_attached_shard(&TenantId(1), ShardSelector::Page(ShardNumber(0))),
        None
    );
    assert_eq!(t.resolve_attached_shard(&TenantId(2), ShardSelector::Zero), Some(whole(2)));
    assert_eq!(
        get_active_tenant(&t, TenantId(1), ShardSelector::First).ok(),
        Some(ActiveTenant::Ready { handle: 101 })
    );
    assert_eq!(
        get_active_tenant(&t, TenantId(2), ShardSelector::First).ok(),
        Some(ActiveTenant::ActivateAndWait { handle: 102 })
    );
    assert!(matches!(
        get_active_tenant(&t, TenantId(3), ShardSelector::First),
        Err(GetTenantError::NotFound(_))
    ));
    assert_eq!(after_barrier(&t, whole(2), WaitEnd::Done).ok(), Some(102));
    assert!(matches!(
        after_barrier(&t, whole(2), WaitEnd::Timeout),
        Err(GetActiveTenantError::WaitForActiveTimeout { latest_state: None })
    ));
    assert!(matches!(
        after_barrier(&t, whole(2), WaitEnd::Cancelled),
        Err(GetActiveTenantError::Cancelled)
    ));
    assert!(matches!(
        after_barrier(&t, whole(3), WaitEnd::Done),
        Err(GetActiveTenantError::NotFound(GetTenantError::NotActive(_)))
    ));
}

#[test]
fn one_guard_per_slot() {
    let mut t = open(vec![(whole(1), attached(whole(1), TenantState::Active))]);
    let g = tenant_map_acquire_slot(&whole(1), &mut t, TenantSlotAcquireMode::Any, 7, 8).ok().unwrap();
    assert!(!g.old_value_is_shutdown());
    assert!(matches!(
        tenant_map_acquire_slot(&whole(1), &mut t, TenantSlotAcquireMode::MustExist, 1, 1),
        Err(TenantSlotError::InProgress)
    ));
    assert!(matches!(
        tenant_map_acquire_slot(&whole(2), &mut t, TenantSlotAcquireMode::MustExist, 1, 1),
        Err(TenantSlotError::NotFound(_))
    ));
    g.revert(&mut t);
    assert!(is_attached(&t, whole(1)));
    assert!(matches!(
        tenant_map_acquire_slot(&whole(1), &mut t, TenantSlotAcquireMode::MustNotExist, 1, 1),
        Err(TenantSlotError::AlreadyExists(_, TenantState::Active))
    ));
    let g = tenant_map_acquire_slot(&whole(1), &mut t, TenantSlotAcquireMode::Any, 7, 8).ok().unwrap();
    g.release(&mut t);
    assert!(is_attached(&t, whole(1)));
    let mut g = tenant_map_acquire_slot(&whole(1), &mut t, TenantSlotAcquireMode::Any, 7, 8).ok().unwrap();
    assert!(g.drop_old_value().is_err());
    g.old_value_shut_down();
    assert!(g.drop_old_value().is_ok());
    g.release(&mut t);
    assert!(is_vacant(&t, whole(1)));
    assert!(matches!(
        tenant_map_acquire_slot(&whole(1), &mut TenantsMap::Initializing, TenantSlotAcquireMode::Any, 1, 1),
        Err(TenantSlotError::MapState(TenantMapError::StillInitializing))
    ));
}

#[test]
fn running_tenants_are_not_overwritten() {
    let mut t = open(vec![(whole(1), attached(whole(1), TenantState::Active))]);
    let g = tenant_map_acquire_slot(&whole(1), &mut t, TenantSlotAcquireMode::Any, 7, 8).ok().unwrap();
    assert!(matches!(
        g.upsert(&mut t, secondary(whole(1))),
        Err(TenantSlotUpsertError::InternalError(SlotBug::OldValueNotShutDown))
    ));
    assert!(is_attached(&t, whole(1)));
    let mut g = tenant_map_acquire_slot(&whole(1), &mut t, TenantSlotAcquireMode::Any, 7, 8).ok().unwrap();
    g.old_value_shut_down();
    assert!(g.upsert(&mut t, secondary(whole(1))).is_ok());
    assert!(!is_attached(&t, whole(1)));
    let stray = SlotGuard::new(whole(2), None, 3);
    assert!(matches!(
        stray.upsert(&mut t, secondary(whole(2))),
        Err(TenantSlotUpsertError::InternalError(SlotBug::MissingMarker))
    ));
    let g = SlotGuard::new(whole(3), None, 3);
    assert!(matches!(
        g.upsert(&mut t, TenantSlot::InProgress(1)),
        Err(TenantSlotUpsertError::InternalError(SlotBug::UpsertOfInProgress))
    ));
    let g = SlotGuard::new(whole(2), None, 3);
    assert!(matches!(
        g.upsert(&mut t, secondary(whole(2))),
        Err(TenantSlotUpsertError::InternalError(SlotBug::UnexpectedContents))
    ));
    let mut down = TenantsMap::ShuttingDown(OrderedMap::new());
    assert!(matches!(
        SlotGuard::new(whole(2), None, 3).upsert(&mut down, secondary(whole(2))),
        Err(TenantSlotUpsertError::ShuttingDown(_, 3))
    ));
    assert!(matches!(
        SlotGuard::new(whole(2), None, 3).upsert(&mut TenantsMap::Initializing, secondary(whole(2))),
        Err(TenantSlotUpsertError::MapState(TenantMapError::StillInitializing))
    ));
}

#[test]
fn slots_are_removed() {
    let mut t = open(vec![
        (whole(1), secondary(whole(1))),
        (whole(2), TenantSlot::InProgress(5)),
    ]);
    assert!(matches!(t.remove(whole(1)), TenantsMapRemoveResult::Occupied(TenantSlot::Secondary(_))));
    assert!(matches!(t.remove(whole(1)), TenantsMapRemoveResult::Vacant));
    assert!(matches!(t.remove(whole(2)), TenantsMapRemoveResult::InProgress(5)));
    assert_eq!(t.len(), 1);
}

/// A shutdown that finds a tenant which is just being removed waits for the removal.
#[test]
fn shutdown_awaits_in_progress_tenant() {
    let id = shard(1, 0, 0);
    let mut tenants = open(vec![(id, attached(id, TenantState::Active))]);

    // Start the removal, which will not complete yet.
    let barrier = 55;
    let (guard, removal) = remove_acquire(&mut tenants, id, barrier, 56).ok().unwrap();
    assert_eq!(removal, Removal::ShutDownAttached { handle: 101 });
    let guard = remove_after_shutdown(guard, &mut tenants, true).ok().unwrap();

    // Start shutdown.  It blocks on the removal.
    let mut wait = match shutdown_all_tenants(&mut tenants) {
        ShutdownStart::Wait { attached, secondary, barriers } => {
            assert!(attached.is_empty());
            assert!(secondary.is_empty());
            assert_eq!(barriers, vec![barrier]);
            ShutdownWait::new(attached.len() + barriers.len())
        }
        _ => panic!("nothing to wait for"),
    };
    assert_eq!(wait.timer_fired(), WaitAction::Report { remaining: 1 });

    // The removal completes, and with it the shutdown.
    assert!(remove_after_cleanup(guard, &mut tenants, None).is_ok());
    assert_eq!(wait.task_ended(TaskEnd::Done), WaitAction::Finished { panicked: 0 });
}

#[test]
fn shutdown_keeps_settled_tenants() {
    let mut t = open(vec![
        (whole(1), attached(whole(1), TenantState::Active)),
        (whole(2), secondary(whole(2))),
        (whole(3), TenantSlot::InProgress(9)),
    ]);
    match shutdown_all_tenants(&mut t) {
        ShutdownStart::Wait { attached, secondary, barriers } => {
            assert_eq!((attached, secondary, barriers), (vec![101], vec![202], vec![9]));
        }
        _ => panic!("no tenants"),
    }
    assert!(get_tenant(&t, whole(1), true).is_ok());
    let m = TenantManager { tenants: t };
    assert!(m.get_secondary_tenant_shard(whole(2)).unwrap().cancelled);
    assert!(m.secondary_tenants().is_empty());
    assert!(!m.manages_tenant_shard(whole(3)));
    let mut t = m.tenants;
    assert!(matches!(shutdown_all_tenants(&mut t), ShutdownStart::AlreadyShuttingDown));
    assert!(matches!(
        shutdown_all_tenants(&mut TenantsMap::Initializing),
        ShutdownStart::NoTenants
    ));
    let mut w = ShutdownWait::new(3);
    assert_eq!(w.task_ended(TaskEnd::Done), WaitAction::Wait);
    w.timer_fired();
    assert_eq!(w.task_ended(TaskEnd::Panicked), WaitAction::RestartTimer);
    assert_eq!(w.task_ended(TaskEnd::Unknown), WaitAction::Finished { panicked: 1 });
}

fn conf_attached(generation: Generation) -> LocationConf {
    LocationConf {
        mode: LocationMode::Attached(AttachedLocationConfig {
            generation,
            attach_mode: AttachmentMode::Multi,
        }),
        shard: identity(whole(1)),
        tenant_conf: TenantConf(2),
    }
}

fn conf_secondary(warm: bool) -> LocationConf {
    LocationConf {
        mode: LocationMode::Secondary(SecondaryLocationConfig { warm }),
        shard: identity(whole(1)),
        tenant_conf: TenantConf(2),
    }
}

#[test]
fn settings_are_taken_over_in_place() {
    let mut t = open(vec![
        (whole(1), attached(whole(1), TenantState::Active)),
        (whole(2), secondary(whole(2))),
    ]);
    let same = conf_attached(Generation::Valid(5));
    assert_eq!(
        upsert_fast_path(&mut t, whole(1), &same),
        Ok(FastPath::UpdatedAttached { handle: 101 })
    );
    assert_eq!(t.get(&whole(1)).unwrap().attach_mode, AttachmentMode::Multi);
    assert_eq!(t.get(&whole(1)).unwrap().tenant_conf, TenantConf(2));
    let older = conf_attached(Generation::Valid(4));
    assert_eq!(
        upsert_fast_path(&mut t, whole(1), &older),
        Err(UpsertLocationError::OldGeneration {
            requested: Generation::Valid(4),
            existing: Generation::Valid(5)
        })
    );
    let newer = conf_attached(Generation::Valid(6));
    assert_eq!(upsert_fast_path(&mut t, whole(1), &newer), Ok(FastPath::General));
    assert_eq!(upsert_fast_path(&mut t, whole(1), &conf_secondary(true)), Ok(FastPath::General));
    assert_eq!(
        upsert_fast_path(&mut t, whole(2), &conf_secondary(false)),
        Ok(FastPath::UpdatedSecondary { handle: 202 })
    );
    match &t {
        TenantsMap::Open(m) => assert!(matches!(
            m.get(&whole(2)),
            Some(TenantSlot::Secondary(s)) if !s.warm && s.tenant_conf == TenantConf(2)
        )),
        _ => panic!("not open"),
    }
    assert_eq!(upsert_fast_path(&mut t, whole(3), &newer), Ok(FastPath::General));
    assert_eq!(
        upsert_fast_path(&mut TenantsMap::Initializing, whole(3), &newer),
        Err(UpsertLocationError::Unavailable(TenantMapError::StillInitializing))
    );
    assert_eq!(after_flush(FlushEnd::Failed), Err(UpsertLocationError::Flush));
    assert!(after_flush(FlushEnd::TimedOut).is_ok());
    assert!(after_flush(FlushEnd::Done).is_ok());
    let stale = LocationConf {
        mode: LocationMode::Attached(AttachedLocationConfig {
            generation: Generation::Valid(5),
            attach_mode: AttachmentMode::Stale,
        }),
        ..same
    };
    assert!(flush_wanted(&stale, true));
    assert!(!flush_wanted(&stale, false));
    assert!(!flush_wanted(&same, true));
}

#[test]
fn locations_are_replaced() {
    let mut t = open(vec![(whole(1), attached(whole(1), TenantState::Active))]);
    let (mut guard, old) = upsert_acquire(&mut t, whole(1), 7, 8).ok().unwrap();
    assert_eq!(old, OldLocation::Attached { handle: 101, flush_deletions: true });
    assert_eq!(
        upsert_acquire(&mut t, whole(1), 7, 8).err(),
        Some(UpsertLocationError::InProgress)
    );
    assert_eq!(old_location_shut_down(&mut guard, SpawnMode::Create), SpawnMode::Normal);
    let conf = conf_attached(Generation::Valid(6));
    assert!(secondary_slot(whole(1), &conf, 1).is_none());
    let slot = attached_slot(whole(1), &conf, TenantState::Attaching, 300).unwrap();
    assert!(matches!(
        upsert_finish(guard, &mut t, slot),
        UpsertEnd::Done { attached: Some(300) }
    ));
    assert_eq!(t.get(&whole(1)).unwrap().generation, Generation::Valid(6));
    assert_eq!(t.get(&whole(1)).unwrap().tenant_conf, TenantConf(2));

    let (mut guard, old) = upsert_acquire(&mut t, whole(2), 7, 8).ok().unwrap();
    assert_eq!(old, OldLocation::Vacant);
    assert_eq!(old_location_shut_down(&mut guard, SpawnMode::Create), SpawnMode::Create);
    let slot = secondary_slot(whole(2), &conf_secondary(false), 400).unwrap();
    assert!(attached_slot(whole(2), &conf_secondary(false), TenantState::Active, 1).is_none());
    assert!(matches!(upsert_finish(guard, &mut t, slot), UpsertEnd::Done { attached: None }));
    let (guard, old) = upsert_acquire(&mut t, whole(2), 7, 8).ok().unwrap();
    assert_eq!(old, OldLocation::Secondary { handle: 400 });
    guard.revert(&mut t);
    let mut down = TenantsMap::ShuttingDown(OrderedMap::new());
    assert!(matches!(
        upsert_finish(SlotGuard::new(whole(4), None, 9), &mut down, secondary(whole(4))),
        UpsertEnd::ShutDownNew { completion: 9, .. }
    ));
}

#[test]
fn tenants_are_reset_and_deleted() {
    let mut t = open(vec![
        (whole(1), attached(whole(1), TenantState::Active)),
        (whole(2), secondary(whole(2))),
        (whole(3), attached(whole(3), broken("x"))),
    ]);
    assert!(matches!(reset_acquire(&mut t, whole(9), 1, 2), Err(ResetError::NotFound)));
    assert!(is_vacant(&t, whole(9)));
    assert!(matches!(reset_acquire(&mut t, whole(2), 1, 2), Err(ResetError::NotAttached)));
    let (guard, handle) = reset_acquire(&mut t, whole(1), 1, 2).ok().unwrap();
    assert_eq!(handle, 101);
    assert!(matches!(
        reset_acquire(&mut t, whole(1), 1, 2),
        Err(ResetError::Slot(TenantSlotError::InProgress))
    ));
    assert!(matches!(
        reset_after_shutdown(guard, &mut t, false),
        Err(ResetError::AlreadyShuttingDown)
    ));
    assert!(is_attached(&t, whole(1)));
    let (guard, _) = reset_acquire(&mut t, whole(1), 1, 2).ok().unwrap();
    let guard = reset_after_shutdown(guard, &mut t, true).ok().unwrap();
    guard.release(&mut t);
    assert!(is_vacant(&t, whole(1)));

    let (guard, handle, wait) = delete_acquire(&mut t, whole(3), 1, 2).ok().unwrap();
    assert_eq!((handle, wait), (103, false));
    guard.revert(&mut t);
    assert!(matches!(delete_acquire(&mut t, whole(2), 1, 2), Err(DeleteTenantError::NotAttached)));
    assert!(matches!(
        delete_acquire(&mut t, whole(8), 1, 2),
        Err(DeleteTenantError::Slot(TenantSlotError::NotFound(_)))
    ));
    assert!(delete_after_wait(ActivationEnd::Active, TenantState::Active).is_ok());
    assert!(matches!(
        delete_after_wait(ActivationEnd::Timeout, TenantState::Loading),
        Err(DeleteTenantError::InvalidState(TenantState::Loading))
    ));
    assert!(matches!(
        delete_after_wait(ActivationEnd::Cancelled, TenantState::Loading),
        Err(DeleteTenantError::Cancelled)
    ));
}

#[test]
fn removal_can_fail() {
    let mut t = open(vec![(whole(1), attached(whole(1), TenantState::Active))]);
    let missing = remove_acquire(&mut t, whole(2), 1, 2).err().unwrap();
    assert!(matches!(missing, TenantStateError::Slot(TenantSlotError::NotFound(_))));
    assert!(detach_set_aside(&Err(missing), true, true));
    assert!(!detach_set_aside(&Ok(()), true, true));
    let (guard, _) = remove_acquire(&mut t, whole(1), 1, 2).ok().unwrap();
    assert!(matches!(
        remove_after_shutdown(guard, &mut t, false),
        Err(TenantStateError::IsStopping(_))
    ));
    assert!(is_attached(&t, whole(1)));
    let (guard, _) = remove_acquire(&mut t, whole(1), 1, 2).ok().unwrap();
    let guard = remove_after_shutdown(guard, &mut t, true).ok().unwrap();
    assert!(matches!(
        remove_after_cleanup(guard, &mut t, Some("disk".to_string())),
        Err(TenantStateError::Cleanup(why)) if why == "disk"
    ));
    assert!(matches!(
        &t.get(&whole(1)).unwrap().state,
        TenantState::Broken { reason, .. } if reason == "disk"
    ));
}

#[test]
fn smaller_operations() {
    let mut t = open(vec![
        (whole(1), attached(whole(1), TenantState::Active)),
        (shard(2, 0, 2), attached(shard(2, 0, 2), TenantState::Active)),
    ]);
    assert!(matches!(
        load_acquire(&mut t, TenantId(1), 1, 2),
        Err(TenantSlotError::AlreadyExists(_, TenantState::Active))
    ));
    load_acquire(&mut t, TenantId(3), 1, 2).ok().unwrap().release(&mut t);
    let (handle, conf) = new_tenant_config(&t, TenantId(1), TenantConf(9)).ok().unwrap();
    assert_eq!(handle, 101);
    assert_eq!(conf.tenant_conf, TenantConf(9));
    assert!(matches!(
        conf.mode,
        LocationMode::Attached(AttachedLocationConfig {
            generation: Generation::Valid(5),
            attach_mode: AttachmentMode::Single
        })
    ));
    assert!(matches!(
        new_tenant_config(&t, TenantId(2), TenantConf(9)),
        Err(SetNewTenantConfigError::GetTenant(GetTenantError::NotFound(_)))
    ));
    let running = |t: &TenantsMap| t.get(&whole(1)).unwrap().tenant_conf;
    assert!(matches!(
        set_new_tenant_config(&mut t, TenantId(1), 101, TenantConf(9), false),
        Err(SetNewTenantConfigError::Persist)
    ));
    assert_eq!(running(&t), TenantConf(1));
    // Another tenant has taken the place meanwhile.
    assert!(set_new_tenant_config(&mut t, TenantId(1), 55, TenantConf(9), true).is_ok());
    assert_eq!(running(&t), TenantConf(1));
    assert!(set_new_tenant_config(&mut t, TenantId(1), 101, TenantConf(9), true).is_ok());
    assert_eq!(running(&t), TenantConf(9));
    assert_eq!(t.get(&whole(1)).unwrap().generation, Generation::Valid(5));
    let run = GcRun {
        handle: 101,
        timeline_id: TimelineId(6),
        horizon: 3,
        pitr: 5,
    };
    assert_eq!(immediate_gc(&t, whole(1), TimelineId(6), Some(3), 4, 5), Some(run));
    let own = GcRun { horizon: 4, ..run };
    assert_eq!(immediate_gc(&t, whole(1), TimelineId(6), None, 4, 5), Some(own));
    assert_eq!(immediate_gc(&t, whole(9), TimelineId(6), None, 4, 5), None);
}

#[test]
fn shards_are_split() {
    let children = whole(1).split(ShardCount(4));
    assert_eq!(children, vec![shard(1, 0, 4), shard(1, 1, 4), shard(1, 2, 4), shard(1, 3, 4)]);
    assert_eq!(shard(1, 1, 2).split(ShardCount(4)), vec![shard(1, 1, 4), shard(1, 3, 4)]);
    assert!(Generation::Valid(3).older_than(&Generation::Valid(4)));
    assert!(Generation::Unset.is_none());
    assert!(ShardCount(0).is_unsharded());
    assert_eq!(ShardCount(0).count(), 1);

    let p = shard(1, 1, 2);
    let mut t = open(vec![
        (p, attached(p, TenantState::Active)),
        (whole(2), secondary(whole(2))),
    ]);
    assert!(matches!(plan_split(&t, p, ShardCount(2)), Err(SplitError::NotAnIncrease)));
    assert!(matches!(plan_split(&t, p, ShardCount(6)), Err(SplitError::NotAPowerOfTwo)));
    assert!(matches!(
        plan_split(&t, whole(2), ShardCount(2)),
        Err(SplitError::Tenant(GetTenantError::NotFound(_)))
    ));
    let plan = plan_split(&t, p, ShardCount(4)).ok().unwrap();
    assert_eq!(plan.children, vec![shard(1, 1, 4), shard(1, 3, 4)]);
    let conf = child_location(&plan, shard(1, 3, 4));
    assert_eq!(conf.shard.number, ShardNumber(3));
    assert_eq!(conf.shard.count, ShardCount(4));
    assert_eq!(conf.shard.stripe_size, 8);
    assert_eq!(conf.tenant_conf, TenantConf(1));
    assert!(matches!(
        conf.mode,
        LocationMode::Attached(AttachedLocationConfig {
            generation: Generation::Valid(5),
            attach_mode: AttachmentMode::Single
        })
    ));
    let (guard, handle) = acquire_parent(&mut t, p, 1, 2).ok().unwrap();
    assert_eq!(handle, 101);
    finish_split(guard, &mut t);
    assert!(is_vacant(&t, p));
    assert!(matches!(acquire_parent(&mut t, p, 1, 2), Err(SplitError::ParentDetached)));
    assert!(matches!(acquire_parent(&mut t, whole(2), 1, 2), Err(SplitError::ParentSecondary)));
}

#[test]
fn files_of_children_are_linked() {
    let children = vec![shard(1, 0, 2), shard(1, 1, 2)];
    let dirs = child_dirs(&children, &vec![TimelineId(7)]);
    assert_eq!(
        dirs,
        vec![
            ChildDir::Tenant(children[0]),
            ChildDir::Timeline(children[0], TimelineId(7)),
            ChildDir::Tenant(children[1]),
            ChildDir::Timeline(children[1], TimelineId(7)),
        ]
    );
    let links = child_links(&children, 2);
    assert_eq!(
        links.iter().map(|l| (l.child.shard_number.0, l.layer)).collect::<Vec<_>>(),
        vec![(0, 0), (0, 1), (1, 0), (1, 1)]
    );
    assert!(create_dir_tolerated(FileError::AlreadyExists));
    assert!(!create_dir_tolerated(FileError::Other));
    assert!(link_tolerated(FileError::NotFound));
    let inside = vec!["/t/parent/timelines/a".to_string(), "/t/parent/b".to_string()];
    assert_eq!(relative_layers("/t/parent", &inside).ok().unwrap(), vec!["timelines/a", "b"]);
    let outside = vec!["/t/parent/a".to_string(), "/t/other/b".to_string()];
    assert!(matches!(relative_layers("/t/parent", &outside), Err(SplitError::Link)));
    assert!(goes_on_after(LinkEnd::Linked) && goes_on_after(LinkEnd::Failed));
    assert!(!goes_on_after(LinkEnd::Panicked));
    assert!(!link_tolerated(FileError::Other));
    let parent = vec![(TimelineId(1), 10), (TimelineId(2), 20)];
    assert_eq!(
        wait_targets(&parent, &vec![TimelineId(2), TimelineId(3)]),
        vec![(TimelineId(2), 20)]
    );
}

#[test]
fn tenant_directories_are_judged() {
    assert_eq!(judge_tenant_dir(true, true, None, true), TenantDir::Temporary);
    assert_eq!(judge_tenant_dir(false, true, None, true), TenantDir::Empty);
    assert_eq!(judge_tenant_dir(false, false, None, true), TenantDir::Garbage);
    assert_eq!(judge_tenant_dir(false, false, Some(whole(1)), true), TenantDir::Ignored);
    assert_eq!(judge_tenant_dir(false, false, Some(whole(1)), false), TenantDir::Tenant(whole(1)));
    assert_eq!(check_spawn(false, false, false, false), Err(SpawnRefusal::NotADirectory));
    assert_eq!(check_spawn(true, true, false, false), Err(SpawnRefusal::Temporary));
    assert_eq!(check_spawn(true, false, true, false), Err(SpawnRefusal::Empty));
    assert_eq!(check_spawn(true, false, false, true), Err(SpawnRefusal::IgnoreMark));
    assert_eq!(check_spawn(true, false, false, false), Ok(()));
    assert_eq!(generation_source(true, true), GenerationSource::LastKnown);
    assert_eq!(generation_source(false, true), GenerationSource::ControlPlane);
    assert_eq!(generation_source(false, false), GenerationSource::Disabled);
}

/// A tenant that was started for `conf_attached`.
fn started(id: TenantShardId, generation: Generation) -> Tenant {
    Tenant {
        generation,
        attach_mode: AttachmentMode::Multi,
        shard_identity: identity(whole(1)),
        tenant_conf: TenantConf(2),
        ..tenant(id, TenantState::Attaching)
    }
}

#[test]
fn startup_follows_the_control_plane() {
    let five: LoadedConf = Ok(conf_attached(Generation::Valid(5)));
    let warm: LoadedConf = Ok(conf_secondary(true));
    let bad: LoadedConf = Err("unreadable".to_string());
    let mut confs = OrderedMap::new();
    confs.insert(whole(1), Ok(conf_attached(Generation::Valid(5))));
    confs.insert(whole(2), Ok(conf_secondary(true)));
    confs.insert(whole(3), Err("unreadable".to_string()));
    let known = emergency_generations(&confs);
    assert_eq!(known.len(), 1);
    assert_eq!(known.get(&whole(1)), Some(&Generation::Valid(5)));

    let mut g = OrderedMap::new();
    g.insert(whole(1), Generation::Valid(6));
    g.insert(whole(4), Generation::Valid(4));
    let generations = Some(g);
    match startup_action(whole(1), &five, &generations) {
        StartupAction::Attach { conf } => {
            assert!(matches!(
                conf.mode,
                LocationMode::Attached(AttachedLocationConfig { generation: Generation::Valid(6), .. })
            ));
        }
        _ => panic!("not attached"),
    }
    assert_eq!(
        startup_action(whole(4), &five, &generations),
        StartupAction::LoadSecondary { warm: false }
    );
    assert_eq!(startup_action(whole(9), &five, &generations), StartupAction::RemoveDirectory);
    assert_eq!(
        startup_action(whole(9), &warm, &generations),
        StartupAction::LoadSecondary { warm: true }
    );
    assert_eq!(startup_action(whole(1), &bad, &generations), StartupAction::MarkBroken);
    assert!(matches!(
        startup_action(whole(9), &five, &None),
        StartupAction::Attach { .. }
    ));

    let mut slots = OrderedMap::new();
    let action = startup_action(whole(9), &warm, &generations);
    settle(&mut slots, whole(9), &warm, action, None, 70);
    let action = startup_action(whole(1), &five, &generations);
    let started = started(whole(1), Generation::Valid(6));
    settle(&mut slots, whole(1), &five, action, Some(started), 71);
    assert_eq!(slots.len(), 2);
    let mut t = TenantsMap::Initializing;
    open_tenants(&mut t, slots);
    assert!(is_attached(&t, whole(1)));
    assert_eq!(t.len(), 2);
}

#[test]
fn locations_keep_their_shard() {
    let c = LocationConf::attached_single(
        TenantConf(4),
        Generation::Valid(1),
        identity(whole(1)),
    );
    assert_eq!(c.tenant_conf, TenantConf(4));
    assert!(matches!(
        c.mode,
        LocationMode::Attached(AttachedLocationConfig {
            generation: Generation::Valid(1),
            attach_mode: AttachmentMode::Single
        })
    ));
    let mut c = conf_secondary(true);
    c.attach_in_generation(Generation::Valid(9));
    assert_eq!(c.tenant_conf, TenantConf(2));
    assert!(matches!(
        c.mode,
        LocationMode::Attached(AttachedLocationConfig { generation: Generation::Valid(9), .. })
    ));
}

#[test]
fn tenants_are_started_one_after_the_other() {
    let mut confs: OrderedMap<TenantShardId, LoadedConf> = OrderedMap::new();
    confs.insert(whole(1), Ok(conf_attached(Generation::Valid(3))));
    confs.insert(whole(2), Err("unreadable".to_string()));
    confs.insert(whole(3), Ok(conf_secondary(true)));
    confs.insert(whole(4), Ok(conf_attached(Generation::Valid(9))));
    confs.insert(whole(5), Ok(conf_attached(Generation::Valid(2))));
    let mut generations = OrderedMap::new();
    generations.insert(whole(1), Generation::Valid(4));
    generations.insert(whole(4), Generation::Valid(8));
    let mut run = StartupRun::new(confs, Some(generations));

    let (id, action) = run.next_action().unwrap();
    assert_eq!(id, whole(1));
    assert!(matches!(action, StartupAction::Attach { .. }));
    run.dealt_with(Some(started(whole(1), Generation::Valid(4))), 1);
    assert_eq!(run.next_action(), Some((whole(2), StartupAction::MarkBroken)));
    run.dealt_with(Some(tenant(whole(2), broken("unreadable"))), 2);
    assert_eq!(run.next_action(), Some((whole(3), StartupAction::LoadSecondary { warm: true })));
    run.dealt_with(None, 3);
    // Generation 8 is older than the 9 it was attached in.
    assert_eq!(run.next_action(), Some((whole(4), StartupAction::LoadSecondary { warm: false })));
    run.dealt_with(None, 4);
    assert_eq!(run.next_action(), Some((whole(5), StartupAction::RemoveDirectory)));
    run.dealt_with(None, 5);
    assert_eq!(run.next_action(), None);

    let mut map = TenantsMap::Initializing;
    run.finish(&mut map);
    let m = TenantManager { tenants: map };
    assert!(m.get_attached_tenant_shard(whole(1), false).is_ok());
    assert!(matches!(
        m.get_attached_tenant_shard(whole(2), true),
        Err(GetTenantError::Broken(why)) if why == "unreadable"
    ));
    assert_eq!(m.get_secondary_tenant_shard(whole(3)).unwrap().handle, 3);
    assert!(!m.get_secondary_tenant_shard(whole(4)).unwrap().warm);
    assert_eq!(m.get_secondary_tenant_shard(whole(4)).unwrap().tenant_conf, TenantConf(2));
    assert!(!m.manages_tenant_shard(whole(5)));
}
