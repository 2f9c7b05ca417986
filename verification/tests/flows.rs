use neon_core::base::ordered_map::OrderedMap;
use neon_core::pageserver::ids::{
    Generation, ShardCount, ShardIdentity, ShardNumber, TenantId, TenantShardId, TimelineId,
};
use neon_core::pageserver::location::{
    AttachedLocationConfig, LocationConf, LocationMode, SecondaryLocationConfig, TenantConf,
};
use neon_core::pageserver::location_upsert::{
    upsert_location, upsert_step, UpsertAction, UpsertEvent, UpsertRequest, UpsertState,
};
use neon_core::pageserver::shard_split::SplitError;
use neon_core::pageserver::split_flow::{
    shard_split, split_step, SplitAction, SplitEvent, SplitState,
};
use neon_core::pageserver::tenant_map::{
    AttachmentMode, SecondaryTenant, Tenant, TenantMapError, TenantSlot, TenantSlotError,
    TenantState, TenantsMap,
};
use neon_core::pageserver::tenant_ops::{SpawnMode, UpsertLocationError};

fn shard(number: u8, count: u8) -> TenantShardId {
    TenantShardId {
        tenant_id: TenantId(1),
        shard_number: ShardNumber(number),
        shard_count: ShardCount(count),
    }
}

fn identity(id: TenantShardId) -> ShardIdentity {
    ShardIdentity {
        number: id.shard_number,
        count: id.shard_count,
        stripe_size: 8,
    }
}

fn attached(id: TenantShardId, handle: u64) -> TenantSlot {
    TenantSlot::Attached(Tenant {
        tenant_shard_id: id,
        state: TenantState::Active,
        generation: Generation::Valid(5),
        attach_mode: AttachmentMode::Single,
        shard_identity: identity(id),
        tenant_conf: TenantConf(1),
        shut_down: false,
        handle,
    })
}

fn secondary(id: TenantShardId, handle: u64) -> TenantSlot {
    TenantSlot::Secondary(SecondaryTenant {
        tenant_shard_id: id,
        shard_identity: identity(id),
        tenant_conf: TenantConf(1),
        warm: true,
        cancelled: false,
        shut_down: false,
        handle,
    })
}

fn slots(values: Vec<(TenantShardId, TenantSlot)>) -> OrderedMap<TenantShardId, TenantSlot> {
    let mut m = OrderedMap::new();
    for (id, slot) in values {
        m.insert(id, slot);
    }
    m
}

fn slot(t: &TenantsMap, id: TenantShardId) -> Option<&TenantSlot> {
    match t {
        TenantsMap::Open(m) | TenantsMap::ShuttingDown(m) => m.get(&id),
        TenantsMap::Initializing => None,
    }
}

fn attach(generation: u32, attach_mode: AttachmentMode) -> LocationConf {
    LocationConf {
        mode: LocationMode::Attached(AttachedLocationConfig {
            generation: Generation::Valid(generation),
            attach_mode,
        }),
        shard: identity(shard(0, 0)),
        tenant_conf: TenantConf(2),
    }
}

fn request(conf: LocationConf, spawn_mode: SpawnMode) -> UpsertRequest {
    UpsertRequest {
        id: shard(0, 0),
        conf,
        flush: true,
        spawn_mode,
        handle: 77,
    }
}

#[test]
fn an_attached_tenant_takes_the_place_of_an_older_one() {
    let id = shard(0, 0);
    let mut t = TenantsMap::Open(slots(vec![(id, attached(id, 11))]));
    let req = request(attach(6, AttachmentMode::Single), SpawnMode::Create);
    let (state, action) = upsert_location(&mut t, &req, 3, 4);
    assert!(matches!(
        action,
        UpsertAction::ShutDownAttached { handle: 11, flush_deletions: true }
    ));
    assert!(matches!(slot(&t, id), Some(TenantSlot::InProgress(3))));
    let (other, refused) = upsert_location(&mut t, &req, 5, 6);
    assert!(matches!(other, UpsertState::Ended));
    assert!(matches!(
        refused,
        UpsertAction::Answer { r: Err(UpsertLocationError::InProgress) }
    ));
    let (state, action) = upsert_step(&mut t, &req, state, UpsertEvent::Done);
    assert!(matches!(action, UpsertAction::CreateDirectories));
    let (state, action) = upsert_step(&mut t, &req, state, UpsertEvent::Done);
    assert!(matches!(action, UpsertAction::WriteConf { conf } if conf == req.conf));
    let (state, action) = upsert_step(&mut t, &req, state, UpsertEvent::Done);
    assert!(matches!(action, UpsertAction::Spawn { mode: SpawnMode::Normal, conf } if conf == req.conf));
    assert!(matches!(slot(&t, id), Some(TenantSlot::InProgress(3))));
    let started = UpsertEvent::Started { state: TenantState::Attaching };
    let (state, action) = upsert_step(&mut t, &req, state, started);
    assert!(matches!(state, UpsertState::Ended));
    assert!(matches!(action, UpsertAction::Answer { r: Ok(Some(77)) }));
    let tenant = t.get(&id).unwrap();
    assert_eq!(tenant.generation, Generation::Valid(6));
    assert_eq!(tenant.handle, 77);
}

#[test]
fn a_new_location_fails_or_comes_too_late() {
    let id = shard(0, 0);
    let req = request(attach(6, AttachmentMode::Single), SpawnMode::Create);
    let mut t = TenantsMap::Open(OrderedMap::new());
    let (state, action) = upsert_location(&mut t, &req, 3, 4);
    assert!(matches!(action, UpsertAction::CreateDirectories));
    let (_, action) = upsert_step(&mut t, &req, state, UpsertEvent::Failed);
    assert!(matches!(action, UpsertAction::Answer { r: Err(UpsertLocationError::Other) }));
    assert!(slot(&t, id).is_none());

    let (state, _) = upsert_location(&mut t, &req, 3, 4);
    let (state, _) = upsert_step(&mut t, &req, state, UpsertEvent::Done);
    let (state, action) = upsert_step(&mut t, &req, state, UpsertEvent::Done);
    assert!(matches!(action, UpsertAction::Spawn { mode: SpawnMode::Create, .. }));
    let mut down = TenantsMap::ShuttingDown(OrderedMap::new());
    let started = UpsertEvent::Started { state: TenantState::Active };
    let (state, action) = upsert_step(&mut down, &req, state, started);
    assert!(matches!(action, UpsertAction::ShutDownNew { slot: TenantSlot::Attached(_) }));
    let (_, action) = upsert_step(&mut down, &req, state, UpsertEvent::Done);
    assert!(matches!(
        action,
        UpsertAction::Answer {
            r: Err(UpsertLocationError::Unavailable(TenantMapError::ShuttingDown))
        }
    ));
}

#[test]
fn settings_are_written_and_data_is_flushed() {
    let id = shard(0, 0);
    let mut t = TenantsMap::Open(slots(vec![(id, attached(id, 11))]));
    let req = request(attach(5, AttachmentMode::Stale), SpawnMode::Normal);
    let (state, action) = upsert_location(&mut t, &req, 3, 4);
    assert!(matches!(action, UpsertAction::TakeOver { conf, .. } if conf == req.conf));
    assert_eq!(t.get(&id).unwrap().attach_mode, AttachmentMode::Stale);
    let (state, action) = upsert_step(&mut t, &req, state, UpsertEvent::Done);
    assert!(matches!(action, UpsertAction::Flush { handle: 11 }));
    let (_, action) = upsert_step(&mut t, &req, state, UpsertEvent::TimedOut);
    assert!(matches!(action, UpsertAction::Answer { r: Ok(Some(11)) }));

    let (state, _) = upsert_location(&mut t, &req, 3, 4);
    let (state, _) = upsert_step(&mut t, &req, state, UpsertEvent::Done);
    let (_, action) = upsert_step(&mut t, &req, state, UpsertEvent::Failed);
    assert!(matches!(action, UpsertAction::Answer { r: Err(UpsertLocationError::Flush) }));

    let older = request(attach(4, AttachmentMode::Single), SpawnMode::Normal);
    let (_, action) = upsert_location(&mut t, &older, 3, 4);
    assert!(matches!(
        action,
        UpsertAction::Answer { r: Err(UpsertLocationError::OldGeneration { .. }) }
    ));
}

#[test]
fn a_tenant_becomes_secondary() {
    let id = shard(0, 0);
    let conf = LocationConf {
        mode: LocationMode::Secondary(SecondaryLocationConfig { warm: true }),
        shard: identity(id),
        tenant_conf: TenantConf(2),
    };
    let mut t = TenantsMap::Open(slots(vec![(id, attached(id, 11))]));
    let req = request(conf, SpawnMode::Normal);
    let (mut state, _) = upsert_location(&mut t, &req, 3, 4);
    for _ in 0..2 {
        state = upsert_step(&mut t, &req, state, UpsertEvent::Done).0;
    }
    let (state, action) = upsert_step(&mut t, &req, state, UpsertEvent::Done);
    assert!(matches!(state, UpsertState::Ended));
    assert!(matches!(action, UpsertAction::Answer { r: Ok(None) }));
    assert!(matches!(slot(&t, id), Some(TenantSlot::Secondary(s)) if s.warm && s.handle == 77));
    let (state, action) = upsert_location(&mut t, &req, 3, 4);
    assert!(matches!(action, UpsertAction::TakeOver { conf, .. } if conf == req.conf));
    let (_, action) = upsert_step(&mut t, &req, state, UpsertEvent::Done);
    assert!(matches!(action, UpsertAction::Answer { r: Ok(None) }));
}

fn linked(t: &mut TenantsMap, parent: TenantShardId) -> SplitState {
    let (state, action) = shard_split(t, parent, ShardCount(2));
    assert!(matches!(action, SplitAction::Prepare { handle: 11 }));
    let (state, action) = split_step(t, state, SplitEvent::Done, 3, 4);
    assert!(matches!(action, SplitAction::FlushDeletions));
    let (state, action) = split_step(t, state, SplitEvent::Done, 3, 4);
    assert!(matches!(action, SplitAction::Link { handle: 11 }));
    assert!(matches!(slot(t, parent), Some(TenantSlot::InProgress(3))));
    let targets = vec![(TimelineId(7), 70), (TimelineId(8), 80)];
    let (state, action) = split_step(t, state, SplitEvent::Linked { targets }, 3, 4);
    assert!(matches!(action, SplitAction::SetLocation { child, .. } if child == shard(0, 2)));
    state
}

fn put(t: &mut TenantsMap, id: TenantShardId, handle: u64) {
    if let TenantsMap::Open(m) = t {
        m.insert(id, attached(id, handle));
    }
}

#[test]
fn a_split_runs_to_its_end() {
    let parent = shard(0, 0);
    let mut t = TenantsMap::Open(slots(vec![(parent, attached(parent, 11))]));
    let state = linked(&mut t, parent);
    put(&mut t, shard(0, 2), 21);
    let (state, action) = split_step(&mut t, state, SplitEvent::Done, 3, 4);
    match action {
        SplitAction::SetLocation { child, conf } => {
            assert_eq!(child, shard(1, 2));
            let of_parent = AttachedLocationConfig {
                generation: Generation::Valid(5),
                attach_mode: AttachmentMode::Single,
            };
            assert_eq!(conf.mode, LocationMode::Attached(of_parent));
            assert_eq!(conf.shard, identity(shard(1, 2)));
        }
        _ => panic!("the second child has no location"),
    }
    put(&mut t, shard(1, 2), 22);
    let (state, action) = split_step(&mut t, state, SplitEvent::Done, 3, 4);
    assert!(matches!(action, SplitAction::WaitToBecomeActive { handle: 21 }));
    let timelines = vec![TimelineId(8), TimelineId(9)];
    let (state, action) = split_step(&mut t, state, SplitEvent::Active { timelines }, 3, 4);
    assert!(matches!(
        action,
        SplitAction::WaitForLsns { targets } if targets == vec![(TimelineId(8), 80)]
    ));
    let (state, action) = split_step(&mut t, state, SplitEvent::Done, 3, 4);
    assert!(matches!(action, SplitAction::WaitToBecomeActive { handle: 22 }));
    let (state, action) = split_step(&mut t, state, SplitEvent::Failed, 3, 4);
    assert!(matches!(action, SplitAction::ShutDownParent { handle: 11 }));
    let (state, action) = split_step(&mut t, state, SplitEvent::Done, 3, 4);
    assert!(matches!(action, SplitAction::Rename { parent: p } if p == parent));
    let (state, action) = split_step(&mut t, state, SplitEvent::Done, 3, 4);
    assert!(matches!(state, SplitState::Ended));
    assert!(matches!(
        action,
        SplitAction::Finish { children } if children == vec![shard(0, 2), shard(1, 2)]
    ));
    assert!(slot(&t, parent).is_none());
    assert!(t.get(&shard(0, 2)).is_some());
}

#[test]
fn a_failed_split_keeps_the_parent() {
    let parent = shard(0, 0);
    let mut t = TenantsMap::Open(slots(vec![(parent, attached(parent, 11))]));
    let state = linked(&mut t, parent);
    let (_, action) = split_step(&mut t, state, SplitEvent::Failed, 3, 4);
    assert!(matches!(action, SplitAction::Fail { e: SplitError::Location }));
    assert_eq!(t.get(&parent).unwrap().handle, 11);

    let (state, _) = shard_split(&t, parent, ShardCount(2));
    let (state, action) = split_step(&mut t, state, SplitEvent::Failed, 3, 4);
    assert!(matches!(action, SplitAction::Reset { parent: p } if p == parent));
    let (_, action) = split_step(&mut t, state, SplitEvent::Done, 3, 4);
    assert!(matches!(action, SplitAction::Fail { e: SplitError::Prepare }));
    let (state, _) = shard_split(&t, parent, ShardCount(2));
    let (state, _) = split_step(&mut t, state, SplitEvent::Failed, 3, 4);
    let (_, action) = split_step(&mut t, state, SplitEvent::Failed, 3, 4);
    assert!(matches!(action, SplitAction::Fail { e: SplitError::Reset }));

    let (state, _) = shard_split(&t, parent, ShardCount(2));
    let (state, _) = split_step(&mut t, state, SplitEvent::Done, 3, 4);
    let (state, _) = split_step(&mut t, state, SplitEvent::Done, 3, 4);
    let (_, action) = split_step(&mut t, state, SplitEvent::Failed, 3, 4);
    assert!(matches!(action, SplitAction::Fail { e: SplitError::Link }));
    assert_eq!(t.get(&parent).unwrap().handle, 11);
}

#[test]
fn splits_meet_other_changes() {
    let parent = shard(0, 0);
    let prepared = |t: &mut TenantsMap| {
        let (state, _) = shard_split(t, parent, ShardCount(2));
        split_step(t, state, SplitEvent::Done, 3, 4).0
    };
    let mut t = TenantsMap::Open(slots(vec![(parent, attached(parent, 11))]));
    let state = prepared(&mut t);
    let mut other = TenantsMap::Open(slots(vec![(parent, secondary(parent, 12))]));
    let (_, action) = split_step(&mut other, state, SplitEvent::Done, 3, 4);
    assert!(matches!(action, SplitAction::Fail { e: SplitError::ParentSecondary }));
    let state = prepared(&mut t);
    let mut none = TenantsMap::Open(OrderedMap::new());
    let (_, action) = split_step(&mut none, state, SplitEvent::Done, 3, 4);
    assert!(matches!(action, SplitAction::Fail { e: SplitError::ParentDetached }));
    let state = prepared(&mut t);
    let mut busy = TenantsMap::Open(slots(vec![(parent, TenantSlot::InProgress(1))]));
    let (_, action) = split_step(&mut busy, state, SplitEvent::Done, 3, 4);
    assert!(matches!(
        action,
        SplitAction::Fail { e: SplitError::Slot(TenantSlotError::InProgress) }
    ));
    let state = linked(&mut t, parent);
    let (state, _) = split_step(&mut t, state, SplitEvent::Done, 3, 4);
    let mut down = TenantsMap::ShuttingDown(OrderedMap::new());
    let (_, action) = split_step(&mut down, state, SplitEvent::Done, 3, 4);
    assert!(matches!(
        action,
        SplitAction::Fail { e: SplitError::Unavailable(TenantMapError::ShuttingDown) }
    ));
    assert!(matches!(
        shard_split(&t, shard(0, 2), ShardCount(2)).1,
        SplitAction::Fail { e: SplitError::Tenant(_) }
    ));
}

#[test]
fn a_parent_that_was_not_renamed_is_gone_all_the_same() {
    let parent = shard(0, 0);
    let mut t = TenantsMap::Open(slots(vec![(parent, attached(parent, 11))]));
    let state = linked(&mut t, parent);
    let (state, _) = split_step(&mut t, state, SplitEvent::Done, 3, 4);
    let (state, action) = split_step(&mut t, state, SplitEvent::Done, 3, 4);
    assert!(matches!(action, SplitAction::ShutDownParent { handle: 11 }));
    let (state, _) = split_step(&mut t, state, SplitEvent::Done, 3, 4);
    let (_, action) = split_step(&mut t, state, SplitEvent::Failed, 3, 4);
    assert!(matches!(action, SplitAction::Fail { e: SplitError::Rename }));
    assert!(slot(&t, parent).is_none());
}
