use neon_core::base::lsn::Lsn;
use neon_core::pageserver::ids::{TenantId, TimelineId};
use neon_core::safekeeper::election::{determine_offloader, NodeId, PeerInfo};
use neon_core::safekeeper::metrics::{
    ConnectionLabels, FullTimelineInfo, MetricFamily, MetricValue, TimelineCollector,
    TrafficMetrics, WalStorageMetrics, LABEL_UNKNOWN,
};
use neon_core::safekeeper::wal_backup::{
    copy_s3_segments, deletion_batch, get_segments, remote_timeline_path, retry_delay,
    segment_paths, xlog_file_name, BackupWait, DeletionBatch, LauncherStep, RangeUpload, Segment,
    SegmentPathError, TaskChange, TenantTimelineId, UploadStep, WalBackupLauncher, WalBackupTask,
};

const SEG: usize = 16 * 1024 * 1024;

fn peer(id: u64, commit: u64, start: u64) -> PeerInfo {
    PeerInfo {
        sk_id: NodeId(id),
        commit_lsn: Lsn(commit),
        local_start_lsn: Lsn(start),
    }
}

#[test]
fn elections_are_explained() {
    let r = determine_offloader(&vec![peer(1, 500, 101)], Lsn(100), TimelineId(7), 10);
    assert_eq!(r.explanation(), "no connected peers to elect from");
    let peers = vec![peer(3, 0x1_0000_00ab, 0), peer(1, 5, 0), peer(2, 0x1_0000_00aa, 0)];
    let r = determine_offloader(&peers, Lsn(100), TimelineId(1), 10);
    assert_eq!(
        r.explanation(),
        "elected 3 among [(NodeId(1), 0/5), (NodeId(2), 1/AA), (NodeId(3), 1/AB)] peers, with 2 of them being caughtup"
    );
    assert_eq!(Lsn(0).to_text(), "0/0");
    assert_eq!(Lsn(u64::MAX).to_text(), "FFFFFFFF/FFFFFFFF");
}

fn ttid(tenant: u128, timeline: u128) -> TenantTimelineId {
    TenantTimelineId {
        tenant_id: TenantId(tenant),
        timeline_id: TimelineId(timeline),
    }
}

#[test]
fn nobody_is_elected_without_capable_peers() {
    let r = determine_offloader(&vec![], Lsn(100), TimelineId(7), 10);
    assert_eq!(r.offloader, None);
    assert_eq!(r.caughtup, 0);
    let r = determine_offloader(&vec![peer(1, 500, 101)], Lsn(100), TimelineId(7), 10);
    assert_eq!(r.offloader, None);
    assert!(r.candidates.is_empty());
}

#[test]
fn the_timeline_picks_among_caught_up_peers() {
    let peers = vec![peer(3, 1000, 0), peer(1, 995, 0), peer(2, 900, 0), peer(4, 2000, 200)];
    // Peer 4 lacks the start of the log, peer 2 is too far behind: 1 and 3 are left.
    let r = determine_offloader(&peers, Lsn(100), TimelineId(0), 10);
    assert_eq!(r.offloader, Some(NodeId(1)));
    assert_eq!(r.caughtup, 2);
    assert_eq!(
        r.candidates,
        vec![
            (NodeId(1), Lsn(995)),
            (NodeId(2), Lsn(900)),
            (NodeId(3), Lsn(1000))
        ]
    );
    let r = determine_offloader(&peers, Lsn(100), TimelineId(1), 10);
    assert_eq!(r.offloader, Some(NodeId(3)));
    let r = determine_offloader(&peers, Lsn(100), TimelineId(2), 10);
    assert_eq!(r.offloader, Some(NodeId(1)));
}

#[test]
fn the_lag_may_exceed_all_positions() {
    let peers = vec![peer(2, 5, 0), peer(1, 0, 0)];
    let r = determine_offloader(&peers, Lsn(100), TimelineId(0), u64::MAX);
    assert_eq!(r.offloader, Some(NodeId(1)));
    assert_eq!(r.caughtup, 2);
}

#[test]
fn the_order_of_peers_is_irrelevant() {
    let mut peers = vec![peer(3, 10, 0), peer(1, 10, 0), peer(2, 10, 0)];
    let a = determine_offloader(&peers, Lsn(0), TimelineId(5), 0).offloader;
    peers.reverse();
    let b = determine_offloader(&peers, Lsn(0), TimelineId(5), 0).offloader;
    assert_eq!(a, b);
    assert_eq!(a, Some(NodeId(3)));
}

#[test]
fn segment_names_follow_postgres() {
    assert_eq!(xlog_file_name(1, SEG), "000000010000000000000001");
    assert_eq!(xlog_file_name(0x1ff, SEG), "0000000100000001000000FF");
    assert_eq!(xlog_file_name(256, SEG), "000000010000000100000000");
    let s = Segment::new(2, Lsn(2 * SEG as u64), Lsn(3 * SEG as u64));
    assert_eq!(s.size(), SEG);
    assert_eq!(s.object_name(), "000000010000000000000002");
    assert_eq!(
        s.file_path("/data/tenant/timeline"),
        "/data/tenant/timeline/000000010000000000000002"
    );
}

#[test]
fn remote_paths_mirror_the_workspace() {
    let s = Segment::new(1, Lsn(SEG as u64), Lsn(2 * SEG as u64));
    let p = segment_paths(&s, "/data/t/l", "/data").unwrap();
    assert_eq!(p.local, "/data/t/l/000000010000000000000001");
    assert_eq!(p.remote, "t/l/000000010000000000000001");
    assert!(matches!(
        segment_paths(&s, "/other/t/l", "/data"),
        Err(SegmentPathError::OutsideWorkspace)
    ));
    assert_eq!(remote_timeline_path("aa", "bb"), "aa/bb");
}

#[test]
fn segments_are_cut_at_their_boundaries() {
    let s = get_segments(Lsn(150), Lsn(420), 100);
    assert_eq!(s.len(), 3);
    assert_eq!(s[0], Segment::new(1, Lsn(100), Lsn(200)));
    assert_eq!(s[2], Segment::new(3, Lsn(300), Lsn(400)));
    assert!(get_segments(Lsn(500), Lsn(420), 100).is_empty());
    assert!(get_segments(Lsn(410), Lsn(420), 100).is_empty());
    let top = get_segments(Lsn(u64::MAX - 100), Lsn(u64::MAX), 16);
    assert_eq!(top.last().unwrap().end_lsn, Lsn(u64::MAX - 15));
}

#[test]
fn retries_back_off() {
    assert_eq!(retry_delay(1), 20);
    assert_eq!(retry_delay(2), 40);
    assert_eq!(retry_delay(8), 2560);
    assert_eq!(retry_delay(9), 5000);
    assert_eq!(retry_delay(62), 5000);
    assert_eq!(retry_delay(63), 0);
    assert_eq!(retry_delay(64), 5000);
    assert_eq!(retry_delay(u32::MAX), 5000);
}

#[test]
fn a_backup_task_waits_and_retries() {
    let mut t = WalBackupTask::new(100, 2);
    assert_eq!(t.wait(), BackupWait::NewWal);
    assert!(!t.check_known(Lsn(99)));
    assert!(t.check_known(Lsn(100)));
    assert!(!t.check_shared(Lsn(250), Lsn(299)));
    assert_eq!(t.backup_lsn, Lsn(250));
    assert!(t.check_shared(Lsn(200), Lsn(399)));
    t.attempt_ended(Lsn(300), false);
    assert_eq!(t.wait(), BackupWait::Sleep(20));
    assert_eq!(t.retry_attempt, 1);
    t.attempt_ended(Lsn(300), true);
    assert_eq!(t.wait(), BackupWait::NewWal);
    t.retry_attempt = u32::MAX;
    t.attempt_ended(Lsn(300), false);
    assert_eq!(t.retry_attempt, u32::MAX);
}

#[test]
fn uploads_are_noted_in_order() {
    assert!(RangeUpload::new(Lsn(0), Lsn(300), 100, 0).is_err());
    let mut u = RangeUpload::new(Lsn(50), Lsn(310), 100, 2).ok().unwrap();
    assert_eq!(u.next_step(), UploadStep::Start(Segment::new(0, Lsn(0), Lsn(100))));
    assert_eq!(u.next_step(), UploadStep::Start(Segment::new(1, Lsn(100), Lsn(200))));
    assert_eq!(u.next_step(), UploadStep::AwaitOldest);
    assert_eq!(u.backup_lsn, Lsn(50));
    assert_eq!(u.oldest_uploaded(), Lsn(100));
    assert_eq!(u.next_step(), UploadStep::Start(Segment::new(2, Lsn(200), Lsn(300))));
    assert_eq!(u.next_step(), UploadStep::AwaitOldest);
    assert_eq!(u.oldest_uploaded(), Lsn(200));
    assert_eq!(u.next_step(), UploadStep::AwaitOldest);
    assert_eq!(u.oldest_uploaded(), Lsn(300));
    assert_eq!(u.next_step(), UploadStep::Done);
    assert_eq!(u.backup_lsn, Lsn(300));
}

#[test]
fn tasks_run_where_elected() {
    let mut l = WalBackupLauncher::new(NodeId(1), true, 10);
    let id = ttid(1, 0);
    assert_eq!(l.on_message(id, false), LauncherStep::Nothing);
    assert_eq!(l.on_message(id, true), LauncherStep::Elect);
    assert_eq!(l.on_message(id, true), LauncherStep::Nothing);
    let peers = vec![peer(1, 10, 0), peer(2, 10, 0)];
    assert_eq!(l.update_task(id, &peers, Lsn(0)).0, TaskChange::Start);
    assert_eq!(l.update_task(id, &peers, Lsn(0)).0, TaskChange::Keep);
    assert_eq!(
        l.update_task(id, &vec![], Lsn(0)),
        (TaskChange::Stop, "no connected peers to elect from".to_string())
    );
    assert_eq!(l.update_task(id, &peers, Lsn(0)).0, TaskChange::Start);
    let others = vec![peer(2, 10, 0)];
    assert_eq!(l.update_task(id, &others, Lsn(0)).0, TaskChange::Stop);
    assert_eq!(l.update_task(id, &others, Lsn(0)).0, TaskChange::Keep);
    assert_eq!(l.update_task(id, &peers, Lsn(0)).0, TaskChange::Start);
    assert_eq!(l.timelines(), vec![id]);
    assert_eq!(
        l.on_message(id, false),
        LauncherStep::Forget { shut_down_task: true }
    );
    assert!(l.timelines().is_empty());
    let mut off = WalBackupLauncher::new(NodeId(1), false, 10);
    assert_eq!(off.on_message(id, true), LauncherStep::Nothing);
}

#[test]
fn copies_skip_what_is_there() {
    let there = vec!["000000010000000000000002".to_string()];
    let copies = copy_s3_segments(SEG, "t/src", "t/dst", 1, 4, &there);
    let pairs: Vec<(String, String)> = copies.into_iter().map(|c| (c.from, c.to)).collect();
    assert_eq!(
        pairs,
        vec![
            (
                "t/src/000000010000000000000001".to_string(),
                "t/dst/000000010000000000000001".to_string()
            ),
            (
                "t/src/000000010000000000000003".to_string(),
                "t/dst/000000010000000000000003".to_string()
            ),
        ]
    );
    assert!(copy_s3_segments(SEG, "a", "b", 4, 1, &there).is_empty());
    let all: Vec<String> = (1..4).map(|n| xlog_file_name(n, SEG)).collect();
    assert!(copy_s3_segments(SEG, "a", "b", 1, 4, &all).is_empty());
}

#[test]
fn deletion_goes_on_until_nothing_is_left() {
    assert_eq!(deletion_batch(&vec![]), DeletionBatch::Done);
    assert_eq!(deletion_batch(&vec!["a".to_string()]), DeletionBatch::DeleteListed);
}

#[test]
fn traffic_is_counted_by_zone() {
    let mut t = TrafficMetrics::new();
    let r = t.observe_read(5);
    assert_eq!(r.bytes, 5);
    assert_eq!(r.labels.same_az, LABEL_UNKNOWN);
    assert_eq!(r.labels.dir, "read");
    assert_eq!(t.observe_read(2).labels.dir, r.labels.dir);
    assert_ne!(t.observe_write(2).labels.dir, r.labels.dir);
    t.set_client_az("a");
    assert_eq!(t.observe_read(1).labels.same_az, "unknown");
    t.set_sk_az("b");
    assert_eq!(t.observe_write(1).labels.same_az, "false");
    t.set_client_az("b");
    t.set_app_name("wal");
    let w = t.observe_write(7);
    assert_eq!(w.labels.same_az, "true");
    assert_eq!(w.labels.dir, "write");
    assert_eq!(w.labels.app_name, "wal");
    assert_eq!(w.labels.client_az, "b");
    assert_eq!(w.labels.sk_az, "b");
    assert_eq!(w.bytes, 7);
    let labels = ConnectionLabels::new();
    assert_eq!(labels.app_name, "unknown");
    assert_eq!(TrafficMetrics::default().labels.client_az, "unknown");
}

fn info(id: TenantTimelineId, active: bool) -> FullTimelineInfo {
    FullTimelineInfo {
        ttid: id,
        ps_last_received_lsn: Lsn(7),
        ps_replytime: None,
        wal_backup_active: false,
        timeline_is_active: active,
        num_computes: 3,
        last_removed_segno: 0,
        epoch_start_lsn: Lsn(4),
        commit_lsn: Lsn(1),
        backup_lsn: Lsn(2),
        peer_horizon_lsn: Lsn(5),
        remote_consistent_lsn: Lsn(6),
        acceptor_term: 9,
        wal_seg_size: 100,
        flush_lsn: Lsn(1050),
        wal_storage: WalStorageMetrics {
            write_wal_bytes: 11,
            write_wal_seconds: 1.5f64.to_bits(),
            flush_wal_seconds: 2.5f64.to_bits(),
        },
    }
}

fn single_value(f: &MetricFamily) -> Vec<MetricValue> {
    match f {
        MetricFamily::PerTimeline(m) => m.entries.iter().map(|e| e.1).collect(),
        MetricFamily::Single(v) => vec![*v],
    }
}

#[test]
fn timelines_are_collected() {
    let c = TimelineCollector::new();
    assert_eq!(c.descs.len(), 19);
    assert_eq!(c.descs[0].name, "safekeeper_commit_lsn");
    assert_eq!(c.descs[15].labels, vec!["tenant_id", "timeline_id"]);
    assert_eq!(c.descs[18].name, "safekeeper_active_timelines");
    assert!(c.descs[18].labels.is_empty());
    let mut first = info(ttid(1, 1), true);
    first.last_removed_segno = 4;
    first.ps_replytime = Some(77);
    let second = info(ttid(1, 2), false);
    let r = c.collect(&vec![first, second], 5, 0.25f64.to_bits());
    assert_eq!(r.len(), 19);
    let one = |k: usize| single_value(&r[k]);
    assert_eq!(one(0), vec![MetricValue::Unsigned(1); 2]);
    assert_eq!(one(1), vec![MetricValue::Unsigned(2); 2]);
    assert_eq!(one(2), vec![MetricValue::Unsigned(1050); 2]);
    assert_eq!(one(3), vec![MetricValue::Unsigned(4); 2]);
    assert_eq!(one(4), vec![MetricValue::Unsigned(5); 2]);
    assert_eq!(one(5), vec![MetricValue::Unsigned(6); 2]);
    assert_eq!(one(6), vec![MetricValue::Unsigned(7); 2]);
    assert_eq!(one(7), vec![MetricValue::Unsigned(77)]);
    assert_eq!(one(8), vec![MetricValue::Unsigned(1), MetricValue::Unsigned(0)]);
    assert_eq!(one(9), vec![MetricValue::Unsigned(0); 2]);
    assert_eq!(one(10), vec![MetricValue::Signed(3); 2]);
    assert_eq!(one(11), vec![MetricValue::Unsigned(600)]);
    assert_eq!(one(12), vec![MetricValue::Unsigned(9); 2]);
    assert_eq!(one(13), vec![MetricValue::Unsigned(11); 2]);
    assert_eq!(one(14), vec![MetricValue::Float(1.5f64.to_bits()); 2]);
    assert_eq!(one(15), vec![MetricValue::Float(2.5f64.to_bits()); 2]);
    assert_eq!(one(16), vec![MetricValue::Float(0.25f64.to_bits())]);
    assert_eq!(one(17), vec![MetricValue::Signed(5)]);
    assert_eq!(one(18), vec![MetricValue::Signed(1)]);
}

#[test]
fn gone_timelines_vanish() {
    let c = TimelineCollector::default();
    let r = c.collect(&vec![], 0, 0);
    for k in 0..16 {
        assert!(single_value(&r[k]).is_empty());
    }
    assert_eq!(single_value(&r[18]), vec![MetricValue::Signed(0)]);
}

#[test]
fn written_bytes_add_up() {
    let mut m = WalStorageMetrics {
        write_wal_bytes: 1,
        write_wal_seconds: 0,
        flush_wal_seconds: 0,
    };
    m.observe_write_bytes(41);
    assert_eq!(m.write_wal_bytes, 42);
}
