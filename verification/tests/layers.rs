use neon_core::base::lsn::Lsn;
use neon_core::base::ordered_map::OrderedMap;
use neon_core::pageserver::eviction_task::{
    eviction_period, imitate_end, imitate_tenant, imitate_timeline, inter_imitate_period,
    is_imitation_due, keyspace_failure_is_news, layers_to_evict, next_iteration, pick_candidates,
    EvictionEnd, EvictionPolicy, EvictionStats, EvictionTaskTenantState, EvictionTaskTimelineState,
    ImitateStage, LayerActivity, StatsLevel,
};
use neon_core::pageserver::heatmap_uploader::{
    changed_digest, complete, gather_heatmap, upload_needed, write_outcome, HeatmapUploader,
    TenantInfo, UploadHeatmapError, UploadHeatmapOutcome, UploadPending, WriteComplete,
};
use neon_core::pageserver::ids::{Generation, ShardCount, ShardNumber, TenantId, TenantShardId, TimelineId};
use neon_core::pageserver::key::Key;
use neon_core::pageserver::layer::{
    check_expected_download, deletion_report, eviction_result, is_file_present_and_good_size,
    layer_info, layer_label, lookup_fits, needs_download, Access, DeleteFailed, DownloadBehavior,
    DownloadEnd, DownloadError, DropAction, EvictionCancelled, EvictionError, FileStat,
    HistoricLayerInfo, InitStep, LayerDesc, LayerInner, LayerResidenceEvent,
    LayerResidenceEventReason, LayerResidenceStatus, NeedsDownload, RareEvent, RemoveEnd,
    ResidentOrWantedEvicted, Status,
};
use neon_core::pageserver::layer_metrics::{layer_metric_descs, redownload_buckets, LayerImplMetrics};
use neon_core::pageserver::tasks::{
    background_permits, compaction_enabled, compaction_error_level, gc_enabled, on_state_update,
    period_overrun, period_seconds, quiesce_after, random_init_delay, BackgroundLoop,
    BackgroundLoopKind, CompactionError, IterationEnd, LooksLike, LoopControl, Sleep, StateUpdate,
    DISABLED_RECHECK, SECOND,
};
use neon_core::pageserver::tenant_map::{AttachmentMode, TenantState, TenantsMap};
use neon_core::pageserver::tenant_manager::GetTenantError;
use neon_core::pageserver::timeline_delete::{
    after_mark_deleted, children, give_up, is_background, next_step, remove_timeline_from_tenant,
    DeleteTimelineError, DeleteTimelineFlow, DeletionStep, MarkDeletedEnd, Timeline, TimelineState,
};

fn present(len: u64) -> FileStat {
    FileStat::Present { is_file: true, len }
}

#[test]
fn unread_layers_are_evicted() {
    let mut l = LayerInner::for_resident(true, 100);
    assert_eq!(l.reader_gone(), DropAction::Nothing);
    assert_eq!(
        l.request_eviction(),
        Ok((true, DropAction::ScheduleEviction { version: 0 }))
    );
    assert_eq!(
        l.evict_blocking(true, 0),
        Ok(LayerResidenceEvent {
            status: LayerResidenceStatus::Evicted,
            reason: LayerResidenceEventReason::ResidenceChange,
        })
    );
    assert_eq!(
        l.first_residence_event(false),
        LayerResidenceEvent {
            status: LayerResidenceStatus::Evicted,
            reason: LayerResidenceEventReason::LayerLoad,
        }
    );
    assert!(l.is_remote());
    assert_eq!(l.eviction_outcome(Status::Evicted), Ok(()));
    assert_eq!(l.request_eviction(), Err(EvictionError::NotFound));
    assert_eq!(eviction_result(RemoveEnd::Removed), Ok(()));
    assert_eq!(eviction_result(RemoveEnd::NotFound), Err(EvictionCancelled::FileNotFound));
    assert_eq!(eviction_result(RemoveEnd::Failed), Err(EvictionCancelled::RemoveFailed));
}

#[test]
fn readers_hold_a_layer() {
    let mut l = LayerInner::for_resident(true, 100);
    assert_eq!(l.request_eviction(), Ok((true, DropAction::Nothing)));
    assert_eq!(l.request_eviction(), Ok((false, DropAction::Nothing)));
    // An access cancels the eviction.
    assert_eq!(l.access(), Access::Got { upgraded: true });
    assert_eq!(l.reader_gone(), DropAction::Nothing);
    assert_eq!(l.request_eviction(), Ok((true, DropAction::Nothing)));
    assert_eq!(l.reader_gone(), DropAction::ScheduleEviction { version: 0 });
    assert_eq!(l.eviction_outcome(Status::Downloaded), Err(EvictionError::Downloaded));
    assert_eq!(l.eviction_outcome(Status::Lagged), Err(EvictionError::Downloaded));
}

#[test]
fn evictions_lose_to_downloads() {
    let mut l = LayerInner::for_resident(true, 100);
    l.reader_gone();
    l.request_eviction().unwrap();
    // Before the removal begins the layer is accessed again.
    assert_eq!(l.access(), Access::Init { retried: true });
    l.begin_init();
    assert_eq!(
        l.decide_init(true, FileStat::NotFound, Some(DownloadBehavior::Download), false, true),
        Ok(InitStep::Download)
    );
    assert_eq!(l.evict_blocking(true, 0), Err(EvictionCancelled::LostToDownload));
    assert_eq!(l.download_ended(DownloadEnd::Done, present(100)), Ok(()));
    assert_eq!(l.finish_init().status, LayerResidenceStatus::Resident);
    let created = l.first_residence_event(true);
    assert_eq!(created.status, LayerResidenceStatus::Resident);
    assert_eq!(created.reason, LayerResidenceEventReason::LayerCreate);
    assert_eq!(l.evict_blocking(true, 0), Err(EvictionCancelled::AlreadyReinitialized));
    assert_eq!(l.evict_blocking(false, 0), Err(EvictionCancelled::TimelineGone));
    l.request_eviction().unwrap();
    assert_eq!(l.evict_blocking(true, 0), Err(EvictionCancelled::VersionCheckFailed));
    assert!(!l.is_remote());
    assert_eq!(l.version, 1);
}

#[test]
fn initializations_can_fail() {
    let decide = |alive, stat, behavior, remote, allow| {
        let mut l = LayerInner::for_evicted(remote, 100);
        assert_eq!(l.access(), Access::Init { retried: false });
        l.begin_init();
        l.decide_init(alive, stat, behavior, false, allow)
    };
    let yes = Some(DownloadBehavior::Download);
    assert_eq!(decide(false, present(100), yes, true, true), Err(DownloadError::TimelineShutdown));
    assert_eq!(decide(true, FileStat::Failed, yes, true, true), Err(DownloadError::PreStatFailed));
    assert_eq!(decide(true, present(100), yes, true, true), Ok(InitStep::UseFile));
    let dir = FileStat::Present { is_file: false, len: 0 };
    assert_eq!(decide(true, dir, yes, true, true), Err(DownloadError::NotFile));
    assert_eq!(decide(true, present(99), yes, false, true), Err(DownloadError::NoRemoteStorage));
    assert_eq!(
        decide(true, present(99), Some(DownloadBehavior::Error), true, true),
        Err(DownloadError::ContextAndConfigReallyDeniesDownloads)
    );
    assert_eq!(decide(true, FileStat::NotFound, yes, true, false), Err(DownloadError::DownloadRequired));
    assert_eq!(decide(true, FileStat::NotFound, None, true, true), Ok(InitStep::Download));
    let mut l = LayerInner::for_evicted(true, 100);
    for (end, error) in [
        (DownloadEnd::Failed, DownloadError::DownloadFailed),
        (DownloadEnd::Cancelled, DownloadError::DownloadCancelled),
        (DownloadEnd::Gone, DownloadError::DownloadCancelled),
    ] {
        l.begin_init();
        assert_eq!(l.download_ended(end, FileStat::NotFound), Err(error));
        assert!(!error.message().is_empty());
    }
    assert_eq!(l.consecutive_failures, 2);
    l.begin_init();
    assert_eq!(
        l.download_ended(DownloadEnd::Done, FileStat::Failed),
        Err(DownloadError::PostStatFailed)
    );
}

#[test]
fn files_are_checked() {
    assert_eq!(is_file_present_and_good_size(true, 5, 5), Ok(()));
    assert_eq!(
        needs_download(present(4), 5),
        Ok(Some(NeedsDownload::WrongSize { actual: 4, expected: 5 }))
    );
    assert_eq!(needs_download(FileStat::NotFound, 5), Ok(Some(NeedsDownload::NotFound)));
    assert_eq!(needs_download(FileStat::Failed, 5), Err(()));
    assert!(check_expected_download(DownloadBehavior::Error, true).is_ok());
    assert!(check_expected_download(DownloadBehavior::Error, false).is_err());
    assert!(check_expected_download(DownloadBehavior::Warn, false).is_ok());
}

#[test]
fn deleted_layers_are_not_evicted() {
    let mut l = LayerInner::for_resident(true, 100);
    assert!(l.delete_on_drop());
    assert!(!l.delete_on_drop());
    l.request_eviction().unwrap();
    assert_eq!(l.reader_gone(), DropAction::Nothing);
    let r = deletion_report(RemoveEnd::Removed, true, Some(true));
    assert!(r.size_released && !r.remove_failed);
    assert_eq!(r.deletion, Some(Ok(())));
    let r = deletion_report(RemoveEnd::Failed, true, Some(false));
    assert!(!r.size_released && r.remove_failed);
    assert_eq!(r.deletion, Some(Err(DeleteFailed::DeleteSchedulingFailed)));
    let r = deletion_report(RemoveEnd::Removed, false, None);
    assert_eq!(r.deletion, Some(Err(DeleteFailed::TimelineGone)));
    assert_eq!(deletion_report(RemoveEnd::NotFound, true, None).deletion, None);
}

fn key(n: u32) -> Key {
    Key {
        field1: 0,
        field2: 0,
        field3: 0,
        field4: 0,
        field5: 0,
        field6: n,
    }
}

#[test]
fn layers_are_reported() {
    let mut d = LayerDesc {
        is_delta: true,
        key_start: key(1),
        key_end: key(5),
        lsn_start: Lsn(10),
        lsn_end: Lsn(20),
        file_size: 7,
    };
    assert!(lookup_fits(&d, key(4), Lsn(10), Lsn(11)));
    assert!(!lookup_fits(&d, key(5), Lsn(10), Lsn(11)));
    assert!(!lookup_fits(&d, key(4), Lsn(9), Lsn(11)));
    let l = LayerInner::for_evicted(true, 7);
    assert_eq!(
        layer_info(&d, &l, "name".to_string(), 3),
        HistoricLayerInfo::Delta {
            layer_file_name: "name".to_string(),
            layer_file_size: 7,
            lsn_start: Lsn(10),
            lsn_end: Lsn(20),
            remote: true,
            access_stats: 3,
        }
    );
    d.is_delta = false;
    assert_eq!(
        layer_info(&d, &l, "name".to_string(), 4),
        HistoricLayerInfo::Image {
            layer_file_name: "name".to_string(),
            layer_file_size: 7,
            lsn_start: Lsn(10),
            remote: true,
            access_stats: 4,
        }
    );
    assert_eq!(layer_label("abc", Generation::Valid(1), "-00000001"), "abc-00000001");
    assert_eq!(layer_label("abc", Generation::Broken, "?"), "abc-broken");
}

#[test]
fn layer_events_are_counted() {
    let mut m = LayerImplMetrics::new();
    m.inc_started_evictions();
    m.inc_completed_evictions();
    m.inc_eviction_cancelled(EvictionCancelled::LostToDownload);
    m.inc_eviction_cancelled(EvictionCancelled::LostToDownload);
    m.inc_started_deletes();
    m.inc_completed_deletes();
    m.inc_deletes_failed(DeleteFailed::TimelineGone);
    m.inc_rare_event(RareEvent::EvictAndWaitLagged);
    m.inc_init_cancelled();
    assert_eq!(m.started_evictions, 1);
    assert_eq!(m.cancelled_evictions[EvictionCancelled::LostToDownload.index()], 2);
    assert_eq!(m.cancelled_evictions.iter().sum::<u64>(), 2);
    assert_eq!(m.failed_deletes[DeleteFailed::TimelineGone.index()], 1);
    assert_eq!(m.rare_counters[RareEvent::EvictAndWaitLagged.index()], 1);
    assert_eq!(m.inits_cancelled, 1);
    for i in 0..8 {
        assert_eq!(EvictionCancelled::from_usize(i).unwrap().index(), i);
    }
    assert_eq!(EvictionCancelled::from_usize(8), None);
    assert_eq!(EvictionCancelled::UpgradedBackOnAccess.as_str(), "upgraded_back_on_access");
    assert_eq!(DeleteFailed::DeleteSchedulingFailed.as_str(), "delete_scheduling_failed");
    assert_eq!(RareEvent::RetriedGetOrMaybeDownload.as_str(), "retried_gomd");
    assert_eq!(RareEvent::from_usize(7), None);
    assert_eq!(DeleteFailed::from_usize(0), Some(DeleteFailed::TimelineGone));
    let descs = layer_metric_descs();
    assert!(descs.iter().any(|d| d.name == "pageserver_layer_started_evictions"));
    assert!(!redownload_buckets().is_empty());
}

#[test]
fn idle_layers_are_candidates() {
    let layer = |resident, last_activity| LayerActivity { resident, last_activity };
    let layers = vec![layer(true, 10), layer(false, 10), layer(true, 95), layer(true, 200), layer(true, 50)];
    assert_eq!(pick_candidates(&layers, 100, 50), vec![0]);
    assert_eq!(pick_candidates(&layers, 100, 49), vec![0, 4]);
    assert_eq!(layers_to_evict(&layers, 100, 49, true), vec![0, 4]);
    assert!(layers_to_evict(&layers, 100, 49, false).is_empty());
    let mut s = EvictionStats::new(3);
    s.count(EvictionEnd::Evicted);
    assert_eq!(s.level(), StatsLevel::Info);
    s.count(EvictionEnd::NotEvictable(EvictionError::NotFound));
    assert_eq!(s.level(), StatsLevel::Warn);
    s.count(EvictionEnd::Panicked);
    assert_eq!((s.evicted, s.errors, s.not_evictable), (1, 1, 1));
    let mut s = EvictionStats::new(1);
    s.count(EvictionEnd::Unknown);
    assert_eq!(s.evicted, 0);
    s.count(EvictionEnd::NotEvictable(EvictionError::Downloaded));
    assert_eq!(s.level(), StatsLevel::Debug);
}

fn shard(number: u8) -> TenantShardId {
    TenantShardId {
        tenant_id: TenantId(1),
        shard_number: ShardNumber(number),
        shard_count: ShardCount(2),
    }
}

#[test]
fn accesses_are_imitated() {
    let p = EvictionPolicy::LayerAccessThreshold { period: 60, threshold: 600 };
    assert_eq!(eviction_period(&p), 60);
    assert_eq!(eviction_period(&EvictionPolicy::NoEviction), 10 * SECOND);
    assert_eq!(next_iteration(&p, 5), 65);
    assert_eq!(inter_imitate_period(60, 600), 540);
    assert_eq!(inter_imitate_period(601, 600), 600);
    assert!(is_imitation_due(None, 0, 540));
    assert!(!is_imitation_due(Some(10), 549, 540));
    assert!(is_imitation_due(Some(10), 550, 540));
    let mut state = EvictionTaskTimelineState::default();
    assert_eq!(imitate_timeline(&shard(1), &state, 0, 540), ImitateStage::Done);
    assert_eq!(imitate_timeline(&shard(0), &state, 0, 540), ImitateStage::Timeline { run: true });
    state.imitated(100);
    assert_eq!(imitate_timeline(&shard(0), &state, 200, 540), ImitateStage::Timeline { run: false });
    let mut tenant = EvictionTaskTenantState::default();
    assert_eq!(imitate_tenant(true, Some(&tenant), true, 0, 540), ImitateStage::Break);
    assert_eq!(imitate_tenant(false, None, true, 0, 540), ImitateStage::Break);
    assert_eq!(
        imitate_tenant(false, Some(&tenant), true, 0, 540),
        ImitateStage::Tenant { run: true, calculate: true }
    );
    assert_eq!(
        imitate_tenant(false, Some(&tenant), false, 0, 540),
        ImitateStage::Tenant { run: true, calculate: false }
    );
    tenant.imitated(0);
    assert_eq!(
        imitate_tenant(false, Some(&tenant), true, 1, 540),
        ImitateStage::Tenant { run: false, calculate: false }
    );
    assert_eq!(imitate_end(true), ImitateStage::Break);
    assert_eq!(imitate_end(false), ImitateStage::Done);
    assert!(keyspace_failure_is_news(true, false));
    assert!(!keyspace_failure_is_news(false, false));
}

#[test]
fn background_loops() {
    assert_eq!(background_permits(2), 1);
    assert_eq!(background_permits(8), 6);
    assert_eq!(BackgroundLoopKind::Gc.as_static_str(), "gc");
    assert_eq!(
        BackgroundLoopKind::ConsumptionMetricsSyntheticSizeWorker.as_static_str(),
        "consumption_metrics_synthetic_size_worker"
    );
    let mut l = BackgroundLoop::new();
    assert!(l.begin());
    assert!(!l.begin());
    assert_eq!(l.end(IterationEnd::Failed, 60), Sleep::BackOff { failures: 1 });
    assert_eq!(l.end(IterationEnd::Failed, 60), Sleep::BackOff { failures: 2 });
    assert_eq!(l.end(IterationEnd::Disabled, 60), Sleep::For { nanos: DISABLED_RECHECK });
    assert_eq!(l.end(IterationEnd::Done, 60), Sleep::For { nanos: 60 });
    assert_eq!(l.end(IterationEnd::Failed, 60), Sleep::BackOff { failures: 1 });
    assert!(!compaction_enabled(0));
    assert!(gc_enabled(1, 1));
    assert!(!gc_enabled(1, 0));
    assert_eq!(quiesce_after(6), 60);
    assert_eq!(compaction_error_level(CompactionError::ShuttingDown, true), None);
    assert_eq!(
        compaction_error_level(CompactionError::Other { is_stopping: false }, false),
        Some(LooksLike::Error)
    );
    assert_eq!(
        compaction_error_level(CompactionError::Other { is_stopping: true }, false),
        Some(LooksLike::Info)
    );
    assert_eq!(on_state_update(&StateUpdate::State(TenantState::Active)), LoopControl::Run);
    assert_eq!(on_state_update(&StateUpdate::State(TenantState::Loading)), LoopControl::Wait);
    assert_eq!(on_state_update(&StateUpdate::SenderDropped), LoopControl::Stop);
    assert!(period_overrun(5, 5));
    assert!(!period_overrun(5, 0));
    assert!(!period_overrun(4, 5));
    assert_eq!(period_seconds(59 * SECOND + 1), 59);
    assert_eq!(random_init_delay(0), None);
    let mut seen = std::collections::HashSet::new();
    for _ in 0..50 {
        let d = random_init_delay(1_000_000).unwrap();
        assert!(d <= 1_000_000);
        seen.insert(d);
    }
    assert!(seen.len() > 1);
}

#[test]
fn heatmaps_are_scheduled() {
    let mut u = HeatmapUploader::new();
    let info = |id, period, attach_mode| TenantInfo { id, period, attach_mode };
    let tenants = vec![
        info(shard(0), Some(100), AttachmentMode::Single),
        info(shard(1), None, AttachmentMode::Single),
        info(shard(2), Some(50), AttachmentMode::Stale),
    ];
    let r = u.schedule(&tenants, 1000);
    assert_eq!(r.want_interval, Some(50));
    assert_eq!(u.tenants.len(), 1);
    let first = u.tenants.get(&shard(0)).unwrap().next_upload.unwrap();
    assert!((1000..1100).contains(&first));
    let r = u.schedule(&tenants, 1100);
    assert_eq!(r.jobs.len(), 1);
    assert_eq!(r.jobs[0].tenant, shard(0));
    u.on_completion(WriteComplete {
        tenant_shard_id: shard(0),
        completed_at: 1150,
        digest: Some(7),
        next_upload: Some(1250),
    });
    assert!(u.schedule(&tenants, 1249).jobs.is_empty());
    let r = u.schedule(&tenants, 1250);
    assert_eq!(r.jobs[0].last_digest, Some(7));
    let at_once = vec![
        info(shard(0), Some(0), AttachmentMode::Single),
        info(shard(2), Some(0), AttachmentMode::Stale),
    ];
    let r = u.schedule(&at_once, 1250);
    assert_eq!(r.want_interval, Some(0));
    assert_eq!(r.jobs.len(), 1);
    u.tenant_gone(shard(0));
    u.cull();
    assert_eq!(u.tenants.len(), 0);
    assert!(matches!(
        HeatmapUploader::on_command(&TenantsMap::Open(OrderedMap::new()), shard(0)),
        Err(GetTenantError::NotFound(_))
    ));
}

#[test]
fn unchanged_heatmaps_stay() {
    // The digest of the empty message.
    let empty = 0xd41d8cd98f00b204e9800998ecf8427e;
    assert_eq!(changed_digest(b"", None), Some(empty));
    assert_eq!(changed_digest(b"", Some(empty)), None);
    assert_eq!(changed_digest(b"abc", Some(empty)), Some(0x900150983cd24fb0d6963f7d28e17f72));
    assert_eq!(upload_needed(3, Some(3)), None);
    assert_eq!(upload_needed(3, None), Some(3));
    assert_eq!(write_outcome(3, true, true), Ok(UploadHeatmapOutcome::Uploaded(3)));
    assert_eq!(write_outcome(3, false, true), Err(UploadHeatmapError::Cancelled));
    assert_eq!(write_outcome(3, false, false), Err(UploadHeatmapError::Upload));
    let gather = |generation, gate_open, timelines: Vec<Option<u8>>| {
        let heatmap = gather_heatmap(generation, gate_open, timelines)?;
        Ok(heatmap.map(|h| (h.generation, h.timelines)))
    };
    assert_eq!(gather(Generation::Unset, true, vec![]), Ok(None));
    assert_eq!(
        gather(Generation::Valid(1), false, vec![]),
        Err(UploadHeatmapError::Cancelled)
    );
    assert_eq!(gather(Generation::Valid(1), true, vec![Some(3), None]), Ok(None));
    assert_eq!(
        gather(Generation::Valid(1), true, vec![Some(3), Some(4)]),
        Ok(Some((Generation::Valid(1), vec![3, 4])))
    );
    let job = UploadPending {
        tenant: shard(0),
        last_digest: Some(1),
        target_time: Some(100),
        period: Some(10),
    };
    let (c, late) = complete(&job, Ok(UploadHeatmapOutcome::Uploaded(2)), 110, Some(10));
    assert!(late);
    assert_eq!((c.digest, c.next_upload), (Some(2), Some(120)));
    let (c, late) = complete(&job, Ok(UploadHeatmapOutcome::NoChange), 105, None);
    assert!(!late);
    assert_eq!((c.digest, c.next_upload), (Some(1), None));
    let (c, _) = complete(&job, Err(UploadHeatmapError::Upload), 105, Some(u128::MAX));
    assert_eq!((c.digest, c.next_upload), (Some(1), None));
}

fn timeline(ancestor: Option<u128>) -> Timeline {
    Timeline {
        ancestor: ancestor.map(TimelineId),
        state: TimelineState::Active,
        delete_lock_held: false,
        delete_progress: DeleteTimelineFlow::default(),
    }
}

#[test]
fn timelines_are_deleted_step_by_step() {
    let mut m = OrderedMap::new();
    m.insert(TimelineId(1), timeline(None));
    m.insert(TimelineId(2), timeline(Some(1)));
    assert_eq!(children(&m, TimelineId(1)), vec![TimelineId(2)]);
    assert!(matches!(
        DeleteTimelineFlow::run(&mut m, TimelineId(9)),
        Err(DeleteTimelineError::NotFound)
    ));
    assert!(matches!(
        DeleteTimelineFlow::run(&mut m, TimelineId(1)),
        Err(DeleteTimelineError::HasChildren(c)) if c == vec![TimelineId(2)]
    ));
    let mut step = DeleteTimelineFlow::run(&mut m, TimelineId(2)).ok().unwrap();
    assert_eq!(step, DeletionStep::StopTasks);
    assert!(matches!(
        DeleteTimelineFlow::run(&mut m, TimelineId(2)),
        Err(DeleteTimelineError::AlreadyInProgress(DeleteTimelineFlow::InProgress))
    ));
    let mut background = vec![];
    while step != DeletionStep::LeaveMap {
        background.push(is_background(step));
        step = next_step(step);
    }
    assert_eq!(background, vec![false, false, true, true]);
    let done = remove_timeline_from_tenant(&mut m, TimelineId(2));
    assert!(done.is_finished());
    assert_eq!(next_step(step), DeletionStep::Finished);
    assert_eq!(m.len(), 1);
}

#[test]
fn deletions_can_be_retried_and_resumed() {
    let mut m = OrderedMap::new();
    m.insert(TimelineId(1), timeline(None));
    DeleteTimelineFlow::run(&mut m, TimelineId(1)).ok().unwrap();
    give_up(&mut m, TimelineId(1), true);
    let t = *m.get(&TimelineId(1)).unwrap();
    assert_eq!(t.state, TimelineState::Broken);
    assert!(!t.delete_lock_held);
    assert!(DeleteTimelineFlow::run(&mut m, TimelineId(1)).is_ok());
    let step = DeleteTimelineFlow::resume_deletion(&mut m, TimelineId(3));
    assert_eq!(step, DeletionStep::DeleteLocal);
    assert_eq!(m.get(&TimelineId(3)).unwrap().state, TimelineState::Stopping);
    let mut finished = timeline(None);
    finished.delete_progress = DeleteTimelineFlow::Finished;
    m.insert(TimelineId(4), finished);
    match DeleteTimelineFlow::run(&mut m, TimelineId(4)) {
        Err(DeleteTimelineError::Finished(e)) => assert_eq!(e.message(), "Bug. Is in finished state"),
        _ => panic!("deleted twice"),
    }
    assert!(after_mark_deleted(MarkDeletedEnd::Done));
    assert!(after_mark_deleted(MarkDeletedEnd::AlreadyDeleted));
    assert!(!after_mark_deleted(MarkDeletedEnd::AlreadyInProgress));
    assert!(!after_mark_deleted(MarkDeletedEnd::Failed));
}

#[test]
fn only_the_first_request_downgrades() {
    let mut l = ResidentOrWantedEvicted::Resident(3);
    assert_eq!(l.downgrade(), Some(3));
    assert_eq!(l, ResidentOrWantedEvicted::WantedEvicted(3));
    assert_eq!(l.downgrade(), None);
    assert_eq!(l, ResidentOrWantedEvicted::WantedEvicted(3));
}
