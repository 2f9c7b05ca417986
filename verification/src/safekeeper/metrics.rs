//! Metrics of safekeepers, in all and for each timeline.
use vstd::prelude::*;

use crate::base::lsn::Lsn;
use crate::base::metric_desc;
use crate::base::metric_desc::DescModel;
use crate::base::metric_desc::MetricDesc;
use crate::base::ordered_map::OrderedMap;
use crate::base::text;
use crate::safekeeper::wal_backup::TenantTimelineId;

verus! {

/// The label for what is not known.
pub const LABEL_UNKNOWN: &'static str = "unknown";

/// Labels for traffic metrics.
pub struct ConnectionLabels {
    /// Availability zone of the connection origin.
    pub client_az: String,
    /// Availability zone of the current safekeeper.
    pub sk_az: String,
    /// Client application name.
    pub app_name: String,
}

/// The labels that tell one counter of traffic from another: those of the connection, the
/// direction, and whether both ends are in the same zone.
pub struct TrafficLabels {
    pub client_az: String,
    pub sk_az: String,
    pub app_name: String,
    pub dir: &'static str,
    pub same_az: &'static str,
}

/// Whether two zones are the same, as a label.
pub open spec fn same_az_label(client_az: Seq<char>, sk_az: Seq<char>) -> Seq<char> {
    if client_az == "unknown"@ || sk_az == "unknown"@ {
        "unknown"@
    } else if client_az == sk_az {
        "true"@
    } else {
        "false"@
    }
}

impl TrafficLabels {
    /// Whether these are the labels of a connection in a direction.
    pub open spec fn describe(self, labels: ConnectionLabels, dir: Seq<char>) -> bool {
        &&& self.client_az@ == labels.client_az@
        &&& self.sk_az@ == labels.sk_az@
        &&& self.app_name@ == labels.app_name@
        &&& self.dir@ == dir
        &&& self.same_az@ == same_az_label(labels.client_az@, labels.sk_az@)
    }
}

impl ConnectionLabels {
    /// The labels of a connection of which nothing is known.
    pub fn new() -> (r: ConnectionLabels)
        ensures
            r.client_az@ == "unknown"@,
            r.sk_az@ == "unknown"@,
            r.app_name@ == "unknown"@,
    {
        ConnectionLabels {
            client_az: String::from_str(LABEL_UNKNOWN),
            sk_az: String::from_str(LABEL_UNKNOWN),
            app_name: String::from_str(LABEL_UNKNOWN),
        }
    }

    /// The labels of the two counters of a connection: for what is read and what is written.
    pub fn build_metrics(&self) -> (r: (TrafficLabels, TrafficLabels))
        ensures
            r.0.describe(*self, "read"@),
            r.1.describe(*self, "write"@),
    {
        let same_az = if text::same_text(self.client_az.as_str(), "unknown") || text::same_text(
            self.sk_az.as_str(),
            "unknown",
        ) {
            "unknown"
        } else if self.client_az == self.sk_az {
            "true"
        } else {
            "false"
        };
        let read = TrafficLabels {
            client_az: self.client_az.clone(),
            sk_az: self.sk_az.clone(),
            app_name: self.app_name.clone(),
            dir: "read",
            same_az,
        };
        let write = TrafficLabels {
            client_az: self.client_az.clone(),
            sk_az: self.sk_az.clone(),
            app_name: self.app_name.clone(),
            dir: "write",
            same_az,
        };
        (read, write)
    }
}

/// A counter and by how much it grows.
pub struct TrafficIncrement<'a> {
    pub labels: &'a TrafficLabels,
    pub bytes: u64,
}

/// The labels by which a counter is found.
pub struct SeriesModel {
    pub client_az: Seq<char>,
    pub sk_az: Seq<char>,
    pub app_name: Seq<char>,
    pub dir: Seq<char>,
    pub same_az: Seq<char>,
}

/// The counter of a direction of a connection.
pub open spec fn series_of(labels: ConnectionLabels, dir: Seq<char>) -> SeriesModel {
    SeriesModel {
        client_az: labels.client_az@,
        sk_az: labels.sk_az@,
        app_name: labels.app_name@,
        dir,
        same_az: same_az_label(labels.client_az@, labels.sk_az@),
    }
}

/// The counters after one of them has grown.  A counter that was not there begins at zero.
pub open spec fn counted(counters: Map<SeriesModel, int>, series: SeriesModel, bytes: int) -> Map<
    SeriesModel,
    int,
> {
    counters.insert(
        series,
        bytes + if counters.dom().contains(series) {
            counters[series]
        } else {
            0
        },
    )
}

impl<'a> TrafficIncrement<'a> {
    /// The counter that grows.
    pub open spec fn series(self) -> SeriesModel {
        SeriesModel {
            client_az: self.labels.client_az@,
            sk_az: self.labels.sk_az@,
            app_name: self.labels.app_name@,
            dir: self.labels.dir@,
            same_az: self.labels.same_az@,
        }
    }
}

/// Metrics for measuring traffic (r/w bytes) in a single PostgreSQL connection.
pub struct TrafficMetrics {
    pub labels: ConnectionLabels,
    /// The counter of bytes read from this connection.
    pub read: TrafficLabels,
    /// The counter of bytes written to this connection.
    pub write: TrafficLabels,
}

impl Default for TrafficMetrics {
    fn default() -> (r: TrafficMetrics)
        ensures
            r.wf(),
            r.labels.client_az@ == "unknown"@,
            r.labels.sk_az@ == "unknown"@,
            r.labels.app_name@ == "unknown"@,
    {
        TrafficMetrics::new()
    }
}

impl TrafficMetrics {
    /// The counters are those of the labels.
    pub open spec fn wf(self) -> bool {
        self.read.describe(self.labels, "read"@) && self.write.describe(self.labels, "write"@)
    }

    /// Metrics of a connection of which nothing is known.
    pub fn new() -> (r: TrafficMetrics)
        ensures
            r.wf(),
            r.labels.client_az@ == "unknown"@,
            r.labels.sk_az@ == "unknown"@,
            r.labels.app_name@ == "unknown"@,
    {
        let labels = ConnectionLabels::new();
        let (read, write) = labels.build_metrics();
        TrafficMetrics { labels, read, write }
    }

    /// From here on the traffic is that of a client in a zone.
    pub fn set_client_az(&mut self, value: &str)
        ensures
            final(self).wf(),
            final(self).labels.client_az@ == value@,
            final(self).labels.sk_az@ == old(self).labels.sk_az@,
            final(self).labels.app_name@ == old(self).labels.app_name@,
    {
        self.labels.client_az = String::from_str(value);
        let (read, write) = self.labels.build_metrics();
        self.read = read;
        self.write = write;
    }

    /// From here on the traffic is that of a safekeeper in a zone.
    pub fn set_sk_az(&mut self, value: &str)
        ensures
            final(self).wf(),
            final(self).labels.sk_az@ == value@,
            final(self).labels.client_az@ == old(self).labels.client_az@,
            final(self).labels.app_name@ == old(self).labels.app_name@,
    {
        self.labels.sk_az = String::from_str(value);
        let (read, write) = self.labels.build_metrics();
        self.read = read;
        self.write = write;
    }

    /// From here on the traffic is that of an application.
    pub fn set_app_name(&mut self, value: &str)
        ensures
            final(self).wf(),
            final(self).labels.app_name@ == value@,
            final(self).labels.client_az@ == old(self).labels.client_az@,
            final(self).labels.sk_az@ == old(self).labels.sk_az@,
    {
        self.labels.app_name = String::from_str(value);
        let (read, write) = self.labels.build_metrics();
        self.read = read;
        self.write = write;
    }

    /// The counter that grows when bytes are read, and by how much.
    pub fn observe_read(&self, cnt: usize) -> (r: TrafficIncrement<'_>)
        requires
            self.wf(),
        ensures
            r.labels.describe(self.labels, "read"@),
            r.series() == series_of(self.labels, "read"@),
            r.bytes == cnt,
    {
        TrafficIncrement { labels: &self.read, bytes: cnt as u64 }
    }

    /// The counter that grows when bytes are written, and by how much.
    pub fn observe_write(&self, cnt: usize) -> (r: TrafficIncrement<'_>)
        requires
            self.wf(),
        ensures
            r.labels.describe(self.labels, "write"@),
            r.series() == series_of(self.labels, "write"@),
            r.bytes == cnt,
    {
        TrafficIncrement { labels: &self.write, bytes: cnt as u64 }
    }
}

/// Two counts of the same traffic are as good as one of their sum.
pub proof fn traffic_adds_up(
    counters: Map<SeriesModel, int>,
    labels: ConnectionLabels,
    dir: Seq<char>,
    a: int,
    b: int,
)
    ensures
        ({
            let series = series_of(labels, dir);
            counted(counted(counters, series, a), series, b) == counted(counters, series, a + b)
        }),
{
    let series = series_of(labels, dir);
    assert(counted(counted(counters, series, a), series, b) =~= counted(counters, series, a + b));
}

/// What is read leaves the counter of what is written alone, and each leaves the counters of
/// all other labels alone.
pub proof fn traffic_is_counted_apart(
    counters: Map<SeriesModel, int>,
    labels: ConnectionLabels,
    dir: Seq<char>,
    other: SeriesModel,
    bytes: int,
)
    requires
        other != series_of(labels, dir),
    ensures
        series_of(labels, "read"@) != series_of(labels, "write"@),
        counted(counters, series_of(labels, dir), bytes).dom().contains(other)
            == counters.dom().contains(other),
        counters.dom().contains(other) ==> counted(
            counters,
            series_of(labels, dir),
            bytes,
        )[other] == counters[other],
{
    reveal_strlit("read");
    reveal_strlit("write");
    assert("read"@.len() == 4 && "write"@.len() == 5);
    assert(series_of(labels, "read"@).dir != series_of(labels, "write"@).dir);
}

/// Whether both ends are in the same zone is known exactly where both zones are, and does not
/// depend on which end is which.
pub proof fn same_az_is_symmetric(a: Seq<char>, b: Seq<char>)
    ensures
        same_az_label(a, b) == same_az_label(b, a),
        same_az_label(a, b) == "unknown"@ <==> (a == "unknown"@ || b == "unknown"@),
        a != "unknown"@ ==> same_az_label(a, a) == "true"@,
{
    reveal_strlit("unknown");
    reveal_strlit("true");
    reveal_strlit("false");
    assert("unknown"@.len() == 7 && "true"@.len() == 4 && "false"@.len() == 5);
}

/// Metrics for the storage of the log of a single timeline.  Times are the bits of
/// floating-point numbers of seconds.
#[derive(Clone, Copy, Debug, PartialEq, Eq, Structural)]
pub struct WalStorageMetrics {
    /// How much bytes were written in total.
    pub write_wal_bytes: u64,
    /// How much time spent writing WAL to disk, waiting for write(2).
    pub write_wal_seconds: u64,
    /// How much time spent syncing WAL to disk, waiting for fsync(2).
    pub flush_wal_seconds: u64,
}

impl WalStorageMetrics {
    /// Takes note of bytes that were written.
    pub fn observe_write_bytes(&mut self, bytes: usize)
        requires
            old(self).write_wal_bytes + bytes <= u64::MAX,
        ensures
            *final(self) == (WalStorageMetrics {
                write_wal_bytes: (old(self).write_wal_bytes + bytes) as u64,
                ..*old(self)
            }),
    {
        self.write_wal_bytes = self.write_wal_bytes + bytes as u64;
    }
}

/// Metrics for a single timeline.
pub struct FullTimelineInfo {
    pub ttid: TenantTimelineId,
    /// The last position that the pageserver has acknowledged.
    pub ps_last_received_lsn: Lsn,
    /// When the pageserver has sent its last feedback, in seconds since the beginning of 1970;
    /// none where that was earlier.
    pub ps_replytime: Option<u64>,
    pub wal_backup_active: bool,
    pub timeline_is_active: bool,
    pub num_computes: u32,
    pub last_removed_segno: u64,
    pub epoch_start_lsn: Lsn,
    pub commit_lsn: Lsn,
    pub backup_lsn: Lsn,
    pub peer_horizon_lsn: Lsn,
    pub remote_consistent_lsn: Lsn,
    pub acceptor_term: u64,
    pub wal_seg_size: u32,
    pub flush_lsn: Lsn,
    pub wal_storage: WalStorageMetrics,
}

impl FullTimelineInfo {
    /// Segments have been removed only where there were any.
    pub open spec fn wf(self) -> bool {
        self.last_removed_segno != 0 ==> self.wal_seg_size > 0 && self.last_removed_segno
            <= self.flush_lsn.0 as int / self.wal_seg_size as int
    }

    /// Roughly how many bytes the segments take that have not been removed.
    pub open spec fn disk_usage(self) -> int {
        (self.flush_lsn.0 as int / self.wal_seg_size as int - self.last_removed_segno)
            * self.wal_seg_size
    }
}

/// What is measured of each timeline.
#[derive(Clone, Copy, Debug, PartialEq, Eq, Structural)]
pub enum TimelineMetric {
    CommitLsn,
    BackupLsn,
    FlushLsn,
    EpochStartLsn,
    PeerHorizonLsn,
    RemoteConsistentLsn,
    PsLastReceivedLsn,
    FeedbackLastTimeSeconds,
    TimelineActive,
    WalBackupActive,
    ConnectedComputes,
    DiskUsage,
    AcceptorTerm,
    WrittenWalBytes,
    WrittenWalSeconds,
    FlushedWalSeconds,
}

/// A value that is measured.
#[derive(Clone, Copy, Debug, PartialEq, Eq, Structural)]
pub enum MetricValue {
    Unsigned(u64),
    Signed(i64),
    /// The bits of a floating-point number.
    Float(u64),
}

/// One or zero.
pub open spec fn flag(b: bool) -> MetricValue {
    MetricValue::Unsigned(
        if b {
            1
        } else {
            0
        },
    )
}

/// What a metric shows of a timeline; none where it shows nothing.
pub open spec fn metric_of(metric: TimelineMetric, info: FullTimelineInfo) -> Option<MetricValue> {
    match metric {
        TimelineMetric::CommitLsn => Some(MetricValue::Unsigned(info.commit_lsn.0)),
        TimelineMetric::BackupLsn => Some(MetricValue::Unsigned(info.backup_lsn.0)),
        TimelineMetric::FlushLsn => Some(MetricValue::Unsigned(info.flush_lsn.0)),
        TimelineMetric::EpochStartLsn => Some(MetricValue::Unsigned(info.epoch_start_lsn.0)),
        TimelineMetric::PeerHorizonLsn => Some(MetricValue::Unsigned(info.peer_horizon_lsn.0)),
        TimelineMetric::RemoteConsistentLsn => Some(
            MetricValue::Unsigned(info.remote_consistent_lsn.0),
        ),
        TimelineMetric::PsLastReceivedLsn => Some(
            MetricValue::Unsigned(info.ps_last_received_lsn.0),
        ),
        TimelineMetric::FeedbackLastTimeSeconds => match info.ps_replytime {
            Some(seconds) => Some(MetricValue::Unsigned(seconds)),
            None => None,
        },
        TimelineMetric::TimelineActive => Some(flag(info.timeline_is_active)),
        TimelineMetric::WalBackupActive => Some(flag(info.wal_backup_active)),
        TimelineMetric::ConnectedComputes => Some(MetricValue::Signed(info.num_computes as i64)),
        TimelineMetric::DiskUsage => if info.last_removed_segno != 0 {
            Some(MetricValue::Unsigned(info.disk_usage() as u64))
        } else {
            None
        },
        TimelineMetric::AcceptorTerm => Some(MetricValue::Unsigned(info.acceptor_term)),
        TimelineMetric::WrittenWalBytes => Some(
            MetricValue::Unsigned(info.wal_storage.write_wal_bytes),
        ),
        TimelineMetric::WrittenWalSeconds => Some(
            MetricValue::Float(info.wal_storage.write_wal_seconds),
        ),
        TimelineMetric::FlushedWalSeconds => Some(
            MetricValue::Float(info.wal_storage.flush_wal_seconds),
        ),
    }
}

/// What a metric shows of several timelines.
pub open spec fn gauge(metric: TimelineMetric, infos: Seq<FullTimelineInfo>) -> Map<
    TenantTimelineId,
    MetricValue,
>
    decreases infos.len(),
{
    if infos.len() == 0 {
        Map::empty()
    } else {
        let front = gauge(metric, infos.drop_last());
        match metric_of(metric, infos.last()) {
            Some(value) => front.insert(infos.last().ttid, value),
            None => front,
        }
    }
}

/// How many timelines are active.
pub open spec fn active_count(infos: Seq<FullTimelineInfo>) -> nat
    decreases infos.len(),
{
    if infos.len() == 0 {
        0
    } else {
        active_count(infos.drop_last()) + if infos.last().timeline_is_active {
            1nat
        } else {
            0nat
        }
    }
}

/// The log that is kept takes no more than all of it.
pub proof fn disk_usage_is_bounded(info: FullTimelineInfo)
    requires
        info.wf(),
        info.last_removed_segno != 0,
    ensures
        0 <= info.disk_usage() <= info.flush_lsn.0,
{
    let size = info.wal_seg_size as int;
    let flush = info.flush_lsn.0 as int;
    let segno = flush / size;
    let removed = info.last_removed_segno as int;
    vstd::arithmetic::div_mod::lemma_fundamental_div_mod(flush, size);
    assert(0 <= (segno - removed) * size <= flush) by (nonlinear_arith)
        requires
            0 <= removed <= segno,
            size > 0,
            flush == size * segno + flush % size,
            flush % size >= 0,
    ;
}

/// One or zero.
fn flag_value(b: bool) -> (r: MetricValue)
    ensures
        r == flag(b),
{
    if b {
        MetricValue::Unsigned(1)
    } else {
        MetricValue::Unsigned(0)
    }
}

/// What a metric shows of a timeline; none where it shows nothing.
pub fn metric_value(metric: TimelineMetric, info: &FullTimelineInfo) -> (r: Option<MetricValue>)
    requires
        info.wf(),
    ensures
        r == metric_of(metric, *info),
{
    match metric {
        TimelineMetric::CommitLsn => Some(MetricValue::Unsigned(info.commit_lsn.0)),
        TimelineMetric::BackupLsn => Some(MetricValue::Unsigned(info.backup_lsn.0)),
        TimelineMetric::FlushLsn => Some(MetricValue::Unsigned(info.flush_lsn.0)),
        TimelineMetric::EpochStartLsn => Some(MetricValue::Unsigned(info.epoch_start_lsn.0)),
        TimelineMetric::PeerHorizonLsn => Some(MetricValue::Unsigned(info.peer_horizon_lsn.0)),
        TimelineMetric::RemoteConsistentLsn => Some(
            MetricValue::Unsigned(info.remote_consistent_lsn.0),
        ),
        TimelineMetric::PsLastReceivedLsn => Some(
            MetricValue::Unsigned(info.ps_last_received_lsn.0),
        ),
        TimelineMetric::FeedbackLastTimeSeconds => match info.ps_replytime {
            Some(seconds) => Some(MetricValue::Unsigned(seconds)),
            None => None,
        },
        TimelineMetric::TimelineActive => Some(flag_value(info.timeline_is_active)),
        TimelineMetric::WalBackupActive => Some(flag_value(info.wal_backup_active)),
        TimelineMetric::ConnectedComputes => Some(MetricValue::Signed(info.num_computes as i64)),
        TimelineMetric::DiskUsage => if info.last_removed_segno != 0 {
            proof {
                disk_usage_is_bounded(*info);
            }
            let segno = info.flush_lsn.segment_number(info.wal_seg_size as usize);
            let segno_count: u64 = segno - info.last_removed_segno;
            Some(MetricValue::Unsigned(segno_count * info.wal_seg_size as u64))
        } else {
            None
        },
        TimelineMetric::AcceptorTerm => Some(MetricValue::Unsigned(info.acceptor_term)),
        TimelineMetric::WrittenWalBytes => Some(
            MetricValue::Unsigned(info.wal_storage.write_wal_bytes),
        ),
        TimelineMetric::WrittenWalSeconds => Some(
            MetricValue::Float(info.wal_storage.write_wal_seconds),
        ),
        TimelineMetric::FlushedWalSeconds => Some(
            MetricValue::Float(info.wal_storage.flush_wal_seconds),
        ),
    }
}

/// What a metric shows of several timelines.
fn gauge_values(metric: TimelineMetric, infos: &Vec<FullTimelineInfo>) -> (r: OrderedMap<
    TenantTimelineId,
    MetricValue,
>)
    requires
        forall|i: int| 0 <= i < infos@.len() ==> (#[trigger] infos@[i]).wf(),
    ensures
        r.wf(),
        r@ == gauge(metric, infos@),
{
    let mut r: OrderedMap<TenantTimelineId, MetricValue> = OrderedMap::new();
    let mut i: usize = 0;
    while i < infos.len()
        invariant
            i <= infos@.len(),
            forall|j: int| 0 <= j < infos@.len() ==> (#[trigger] infos@[j]).wf(),
            r.wf(),
            r@ == gauge(metric, infos@.take(i as int)),
        decreases infos@.len() - i,
    {
        assert(infos@.take(i + 1).drop_last() =~= infos@.take(i as int));
        match metric_value(metric, &infos[i]) {
            Some(value) => {
                r.insert(infos[i].ttid, value);
            },
            None => {},
        }
        i += 1;
    }
    assert(infos@.take(i as int) =~= infos@);
    r
}

/// How many timelines are active.
fn count_active(infos: &Vec<FullTimelineInfo>) -> (r: usize)
    ensures
        r == active_count(infos@),
        r <= infos@.len(),
{
    let mut r: usize = 0;
    let mut i: usize = 0;
    while i < infos.len()
        invariant
            i <= infos@.len(),
            r <= i,
            r == active_count(infos@.take(i as int)),
        decreases infos@.len() - i,
    {
        assert(infos@.take(i + 1).drop_last() =~= infos@.take(i as int));
        if infos[i].timeline_is_active {
            r += 1;
        }
        i += 1;
    }
    assert(infos@.take(i as int) =~= infos@);
    r
}

/// The values of a metric.
pub enum MetricFamily {
    PerTimeline(OrderedMap<TenantTimelineId, MetricValue>),
    Single(MetricValue),
}

/// What is measured of each timeline, in the order in which it is reported.
pub open spec fn reported() -> Seq<TimelineMetric> {
    seq![
        TimelineMetric::CommitLsn,
        TimelineMetric::BackupLsn,
        TimelineMetric::FlushLsn,
        TimelineMetric::EpochStartLsn,
        TimelineMetric::PeerHorizonLsn,
        TimelineMetric::RemoteConsistentLsn,
        TimelineMetric::PsLastReceivedLsn,
        TimelineMetric::FeedbackLastTimeSeconds,
        TimelineMetric::TimelineActive,
        TimelineMetric::WalBackupActive,
        TimelineMetric::ConnectedComputes,
        TimelineMetric::DiskUsage,
        TimelineMetric::AcceptorTerm,
        TimelineMetric::WrittenWalBytes,
        TimelineMetric::WrittenWalSeconds,
        TimelineMetric::FlushedWalSeconds,
    ]
}

/// The description of a metric of each timeline.
pub open spec fn per_timeline(name: Seq<char>, help: Seq<char>) -> DescModel {
    DescModel { name, help, labels: seq!["tenant_id"@, "timeline_id"@] }
}

/// The description of a metric that has one value.
pub open spec fn single(name: Seq<char>, help: Seq<char>) -> DescModel {
    DescModel { name, help, labels: Seq::empty() }
}

/// The descriptions of all metrics, in the order in which they are reported.
pub open spec fn collector_descs() -> Seq<DescModel> {
    seq![
        per_timeline(
            "safekeeper_commit_lsn"@,
            "Current commit_lsn (not necessarily persisted to disk), grouped by timeline"@,
        ),
        per_timeline(
            "safekeeper_backup_lsn"@,
            "Current backup_lsn, up to which WAL is backed up, grouped by timeline"@,
        ),
        per_timeline(
            "safekeeper_flush_lsn"@,
            "Current flush_lsn, grouped by timeline"@,
        ),
        per_timeline(
            "safekeeper_epoch_start_lsn"@,
            "Point since which compute generates new WAL in the current consensus term"@,
        ),
        per_timeline(
            "safekeeper_peer_horizon_lsn"@,
            "LSN of the most lagging safekeeper"@,
        ),
        per_timeline(
            "safekeeper_remote_consistent_lsn"@,
            "LSN which is persisted to the remote storage in pageserver"@,
        ),
        per_timeline(
            "safekeeper_ps_last_received_lsn"@,
            "Last LSN received by the pageserver, acknowledged in the feedback"@,
        ),
        per_timeline(
            "safekeeper_feedback_last_time_seconds"@,
            "Timestamp of the last feedback from the pageserver"@,
        ),
        per_timeline(
            "safekeeper_timeline_active"@,
            "Reports 1 for active timelines, 0 for inactive"@,
        ),
        per_timeline(
            "safekeeper_wal_backup_active"@,
            "Reports 1 for timelines with active WAL backup, 0 otherwise"@,
        ),
        per_timeline(
            "safekeeper_connected_computes"@,
            "Number of active compute connections"@,
        ),
        per_timeline(
            "safekeeper_disk_usage_bytes"@,
            "Estimated disk space used to store WAL segments"@,
        ),
        per_timeline(
            "safekeeper_acceptor_term"@,
            "Current consensus term"@,
        ),
        per_timeline(
            "safekeeper_written_wal_bytes_total"@,
            "Number of WAL bytes written to disk, grouped by timeline"@,
        ),
        per_timeline(
            "safekeeper_written_wal_seconds_total"@,
            "Total time spent in write(2) writing WAL to disk, grouped by timeline"@,
        ),
        per_timeline(
            "safekeeper_flushed_wal_seconds_total"@,
            "Total time spent in fsync(2) flushing WAL to disk, grouped by timeline"@,
        ),
        single(
            "safekeeper_collect_timeline_metrics_seconds"@,
            "Time spent collecting timeline metrics, including obtaining mutex lock for all timelines"@,
        ),
        single(
            "safekeeper_timelines"@,
            "Total number of timelines loaded in-memory"@,
        ),
        single(
            "safekeeper_active_timelines"@,
            "Total number of active timelines"@,
        ),
    ]
}

/// Collects metrics for all active timelines.
pub struct TimelineCollector {
    pub descs: Vec<MetricDesc>,
}

impl Default for TimelineCollector {
    fn default() -> (r: TimelineCollector)
        ensures
            metric_desc::desc_models(r.descs@) == collector_descs(),
    {
        TimelineCollector::new()
    }
}

/// Adds a metric of each timeline.
fn push_timeline_desc(descs: &mut Vec<MetricDesc>, name: &'static str, help: &'static str)
    ensures
        metric_desc::desc_models(final(descs)@) == metric_desc::desc_models(old(descs)@).push(
            per_timeline(name@, help@),
        ),
{
    descs.push(MetricDesc::labelled2(name, help, "tenant_id", "timeline_id"));
    assert(metric_desc::desc_models(descs@) =~= metric_desc::desc_models(old(descs)@).push(
        per_timeline(name@, help@),
    ));
}

/// Adds a metric that has one value.
fn push_single_desc(descs: &mut Vec<MetricDesc>, name: &'static str, help: &'static str)
    ensures
        metric_desc::desc_models(final(descs)@) == metric_desc::desc_models(old(descs)@).push(
            single(name@, help@),
        ),
{
    descs.push(MetricDesc::plain(name, help));
    assert(metric_desc::desc_models(descs@) =~= metric_desc::desc_models(old(descs)@).push(
        single(name@, help@),
    ));
}

impl TimelineCollector {
    /// A collector, with the descriptions of all its metrics.
    pub fn new() -> (r: TimelineCollector)
        ensures
            metric_desc::desc_models(r.descs@) == collector_descs(),
    {
        let mut descs: Vec<MetricDesc> = Vec::new();
        assert(metric_desc::desc_models(descs@) =~= Seq::<DescModel>::empty());
        push_timeline_desc(
            &mut descs,
            "safekeeper_commit_lsn",
            "Current commit_lsn (not necessarily persisted to disk), grouped by timeline",
        );
        push_timeline_desc(
            &mut descs,
            "safekeeper_backup_lsn",
            "Current backup_lsn, up to which WAL is backed up, grouped by timeline",
        );
        push_timeline_desc(
            &mut descs,
            "safekeeper_flush_lsn",
            "Current flush_lsn, grouped by timeline",
        );
        push_timeline_desc(
            &mut descs,
            "safekeeper_epoch_start_lsn",
            "Point since which compute generates new WAL in the current consensus term",
        );
        push_timeline_desc(
            &mut descs,
            "safekeeper_peer_horizon_lsn",
            "LSN of the most lagging safekeeper",
        );
        push_timeline_desc(
            &mut descs,
            "safekeeper_remote_consistent_lsn",
            "LSN which is persisted to the remote storage in pageserver",
        );
        push_timeline_desc(
            &mut descs,
            "safekeeper_ps_last_received_lsn",
            "Last LSN received by the pageserver, acknowledged in the feedback",
        );
        push_timeline_desc(
            &mut descs,
            "safekeeper_feedback_last_time_seconds",
            "Timestamp of the last feedback from the pageserver",
        );
        push_timeline_desc(
            &mut descs,
            "safekeeper_timeline_active",
            "Reports 1 for active timelines, 0 for inactive",
        );
        push_timeline_desc(
            &mut descs,
            "safekeeper_wal_backup_active",
            "Reports 1 for timelines with active WAL backup, 0 otherwise",
        );
        push_timeline_desc(
            &mut descs,
            "safekeeper_connected_computes",
            "Number of active compute connections",
        );
        push_timeline_desc(
            &mut descs,
            "safekeeper_disk_usage_bytes",
            "Estimated disk space used to store WAL segments",
        );
        push_timeline_desc(
            &mut descs,
            "safekeeper_acceptor_term",
            "Current consensus term",
        );
        push_timeline_desc(
            &mut descs,
            "safekeeper_written_wal_bytes_total",
            "Number of WAL bytes written to disk, grouped by timeline",
        );
        push_timeline_desc(
            &mut descs,
            "safekeeper_written_wal_seconds_total",
            "Total time spent in write(2) writing WAL to disk, grouped by timeline",
        );
        push_timeline_desc(
            &mut descs,
            "safekeeper_flushed_wal_seconds_total",
            "Total time spent in fsync(2) flushing WAL to disk, grouped by timeline",
        );
        push_single_desc(
            &mut descs,
            "safekeeper_collect_timeline_metrics_seconds",
            "Time spent collecting timeline metrics, including obtaining mutex lock for all timelines",
        );
        push_single_desc(
            &mut descs,
            "safekeeper_timelines",
            "Total number of timelines loaded in-memory",
        );
        push_single_desc(
            &mut descs,
            "safekeeper_active_timelines",
            "Total number of active timelines",
        );
        assert(metric_desc::desc_models(descs@) =~= collector_descs());
        TimelineCollector { descs }
    }

    /// The values of all metrics, in the order of their descriptions.  Only the timelines that
    /// are given have values.  `elapsed` is the time that it took to obtain them, as the bits
    /// of a floating-point number of seconds.
    pub fn collect(
        &self,
        infos: &Vec<FullTimelineInfo>,
        timelines_count: usize,
        elapsed: u64,
    ) -> (r: Vec<MetricFamily>)
        requires
            forall|i: int| 0 <= i < infos@.len() ==> (#[trigger] infos@[i]).wf(),
        ensures
            r@.len() == 19,
            forall|k: int|
                0 <= k < 16 ==> ((#[trigger] r@[k]) matches MetricFamily::PerTimeline(m) && m.wf()
                    && m@ == gauge(reported()[k], infos@)),
            r@[16] == MetricFamily::Single(MetricValue::Float(elapsed)),
            r@[17] == MetricFamily::Single(MetricValue::Signed(timelines_count as i64)),
            r@[18] == MetricFamily::Single(MetricValue::Signed(active_count(infos@) as i64)),
    {
        let mut mfs: Vec<MetricFamily> = Vec::new();
        mfs.push(
            MetricFamily::PerTimeline(gauge_values(TimelineMetric::CommitLsn, infos)),
        );
        mfs.push(
            MetricFamily::PerTimeline(gauge_values(TimelineMetric::BackupLsn, infos)),
        );
        mfs.push(
            MetricFamily::PerTimeline(gauge_values(TimelineMetric::FlushLsn, infos)),
        );
        mfs.push(
            MetricFamily::PerTimeline(gauge_values(TimelineMetric::EpochStartLsn, infos)),
        );
        mfs.push(
            MetricFamily::PerTimeline(gauge_values(TimelineMetric::PeerHorizonLsn, infos)),
        );
        mfs.push(
            MetricFamily::PerTimeline(gauge_values(TimelineMetric::RemoteConsistentLsn, infos)),
        );
        mfs.push(
            MetricFamily::PerTimeline(gauge_values(TimelineMetric::PsLastReceivedLsn, infos)),
        );
        mfs.push(
            MetricFamily::PerTimeline(gauge_values(TimelineMetric::FeedbackLastTimeSeconds, infos)),
        );
        mfs.push(
            MetricFamily::PerTimeline(gauge_values(TimelineMetric::TimelineActive, infos)),
        );
        mfs.push(
            MetricFamily::PerTimeline(gauge_values(TimelineMetric::WalBackupActive, infos)),
        );
        mfs.push(
            MetricFamily::PerTimeline(gauge_values(TimelineMetric::ConnectedComputes, infos)),
        );
        mfs.push(
            MetricFamily::PerTimeline(gauge_values(TimelineMetric::DiskUsage, infos)),
        );
        mfs.push(
            MetricFamily::PerTimeline(gauge_values(TimelineMetric::AcceptorTerm, infos)),
        );
        mfs.push(
            MetricFamily::PerTimeline(gauge_values(TimelineMetric::WrittenWalBytes, infos)),
        );
        mfs.push(
            MetricFamily::PerTimeline(gauge_values(TimelineMetric::WrittenWalSeconds, infos)),
        );
        mfs.push(
            MetricFamily::PerTimeline(gauge_values(TimelineMetric::FlushedWalSeconds, infos)),
        );
        // report time it took to collect all info
        mfs.push(MetricFamily::Single(MetricValue::Float(elapsed)));
        // report total number of timelines
        mfs.push(MetricFamily::Single(MetricValue::Signed(timelines_count as i64)));
        let active = count_active(infos);
        mfs.push(MetricFamily::Single(MetricValue::Signed(active as i64)));
        mfs
    }
}

/// Each timeline shows its own values, whatever the others are.
pub proof fn timelines_show_their_own_values(
    metric: TimelineMetric,
    infos: Seq<FullTimelineInfo>,
    i: int,
)
    requires
        0 <= i < infos.len(),
        forall|a: int, b: int|
            0 <= a < b < infos.len() ==> (#[trigger] infos[a]).ttid != (#[trigger] infos[b]).ttid,
    ensures
        match metric_of(metric, infos[i]) {
            Some(value) => gauge(metric, infos).dom().contains(infos[i].ttid) && gauge(
                metric,
                infos,
            )[infos[i].ttid] == value,
            None => !gauge(metric, infos).dom().contains(infos[i].ttid),
        },
    decreases infos.len(),
{
    let front = infos.drop_last();
    assert forall|a: int, b: int| 0 <= a < b < front.len() implies (#[trigger] front[a]).ttid != (
    #[trigger] front[b]).ttid by {
        assert(infos[a].ttid != infos[b].ttid);
    }
    if i < front.len() {
        timelines_show_their_own_values(metric, front, i);
        assert(front[i] == infos[i]);
        assert(infos[i].ttid != infos[infos.len() - 1].ttid);
    } else {
        lemma_gauge_dom(metric, front, infos[i].ttid);
        assert forall|a: int| 0 <= a < front.len() implies (#[trigger] front[a]).ttid
            != infos[i].ttid by {
            assert(infos[a].ttid != infos[i].ttid);
        }
    }
}

/// Only timelines that are there are shown.
proof fn lemma_gauge_dom(metric: TimelineMetric, infos: Seq<FullTimelineInfo>, ttid: TenantTimelineId)
    ensures
        gauge(metric, infos).dom().contains(ttid) ==> exists|a: int|
            0 <= a < infos.len() && (#[trigger] infos[a]).ttid == ttid,
    decreases infos.len(),
{
    if infos.len() > 0 {
        let front = infos.drop_last();
        lemma_gauge_dom(metric, front, ttid);
        if gauge(metric, front).dom().contains(ttid) {
            let a = choose|a: int| 0 <= a < front.len() && (#[trigger] front[a]).ttid == ttid;
            assert(infos[a] == front[a]);
        } else if infos.last().ttid == ttid {
            assert(infos[infos.len() - 1].ttid == ttid);
        }
    }
}

/// A timeline that is gone is not shown any more.
pub proof fn gone_timelines_are_not_shown(
    metric: TimelineMetric,
    infos: Seq<FullTimelineInfo>,
    ttid: TenantTimelineId,
)
    requires
        forall|a: int| 0 <= a < infos.len() ==> (#[trigger] infos[a]).ttid != ttid,
    ensures
        !gauge(metric, infos).dom().contains(ttid),
{
    lemma_gauge_dom(metric, infos, ttid);
}

/// Zones are compared where both are known.
pub proof fn known_zones_are_compared(a: Seq<char>, b: Seq<char>)
    requires
        a != "unknown"@,
        b != "unknown"@,
    ensures
        same_az_label(a, b) == if a == b {
            "true"@
        } else {
            "false"@
        },
{
}

/// The disk usage reaches from the end of the last removed segment to the start of the segment
/// that the flush position is in, which is less than a segment before that position.
pub proof fn disk_usage_covers_the_kept_segments(info: FullTimelineInfo)
    requires
        info.wal_seg_size > 0,
    ensures
        info.last_removed_segno * info.wal_seg_size + info.disk_usage() <= info.flush_lsn.0
            < info.last_removed_segno * info.wal_seg_size + info.disk_usage() + info.wal_seg_size,
{
    let size = info.wal_seg_size as int;
    let flush = info.flush_lsn.0 as int;
    let removed = info.last_removed_segno as int;
    assert(removed * size + (flush / size - removed) * size == (flush / size) * size)
        by (nonlinear_arith);
    assert((flush / size) * size <= flush < (flush / size) * size + size) by (nonlinear_arith)
        requires
            size > 0,
    ;
}

/// Each metric shows its own field of a timeline: positions and counts as they are, flags as one
/// or zero, the time of the feedback where there was one, and the disk usage where a segment has
/// been removed.
pub proof fn metrics_show_their_field(info: FullTimelineInfo)
    requires
        info.wf(),
    ensures
        metric_of(TimelineMetric::CommitLsn, info) == Some(MetricValue::Unsigned(info.commit_lsn.0)),
        metric_of(TimelineMetric::BackupLsn, info) == Some(MetricValue::Unsigned(info.backup_lsn.0)),
        metric_of(TimelineMetric::FlushLsn, info) == Some(MetricValue::Unsigned(info.flush_lsn.0)),
        metric_of(TimelineMetric::EpochStartLsn, info) == Some(
            MetricValue::Unsigned(info.epoch_start_lsn.0),
        ),
        metric_of(TimelineMetric::PeerHorizonLsn, info) == Some(
            MetricValue::Unsigned(info.peer_horizon_lsn.0),
        ),
        metric_of(TimelineMetric::RemoteConsistentLsn, info) == Some(
            MetricValue::Unsigned(info.remote_consistent_lsn.0),
        ),
        metric_of(TimelineMetric::PsLastReceivedLsn, info) == Some(
            MetricValue::Unsigned(info.ps_last_received_lsn.0),
        ),
        metric_of(TimelineMetric::FeedbackLastTimeSeconds, info) is Some
            <==> info.ps_replytime is Some,
        info.ps_replytime matches Some(t) ==> metric_of(
            TimelineMetric::FeedbackLastTimeSeconds,
            info,
        ) == Some(MetricValue::Unsigned(t)),
        metric_of(TimelineMetric::TimelineActive, info) == Some(
            MetricValue::Unsigned(if info.timeline_is_active { 1 } else { 0 }),
        ),
        metric_of(TimelineMetric::WalBackupActive, info) == Some(
            MetricValue::Unsigned(if info.wal_backup_active { 1 } else { 0 }),
        ),
        metric_of(TimelineMetric::ConnectedComputes, info) == Some(
            MetricValue::Signed(info.num_computes as i64),
        ),
        metric_of(TimelineMetric::DiskUsage, info) is Some <==> info.last_removed_segno != 0,
        metric_of(TimelineMetric::DiskUsage, info) matches Some(value) ==> (value matches
            MetricValue::Unsigned(bytes) && info.last_removed_segno * info.wal_seg_size + bytes
            <= info.flush_lsn.0 < info.last_removed_segno * info.wal_seg_size + bytes
            + info.wal_seg_size),
        metric_of(TimelineMetric::AcceptorTerm, info) == Some(
            MetricValue::Unsigned(info.acceptor_term),
        ),
        metric_of(TimelineMetric::WrittenWalBytes, info) == Some(
            MetricValue::Unsigned(info.wal_storage.write_wal_bytes),
        ),
        metric_of(TimelineMetric::WrittenWalSeconds, info) == Some(
            MetricValue::Float(info.wal_storage.write_wal_seconds),
        ),
        metric_of(TimelineMetric::FlushedWalSeconds, info) == Some(
            MetricValue::Float(info.wal_storage.flush_wal_seconds),
        ),
{
    if info.last_removed_segno != 0 {
        disk_usage_is_bounded(info);
        disk_usage_covers_the_kept_segments(info);
    }
}

/// Every metric is reported, and none twice.
pub proof fn every_metric_is_reported_once(metric: TimelineMetric)
    ensures
        reported().contains(metric),
        reported().no_duplicates(),
{
    let all = reported();
    assert(all[0] == TimelineMetric::CommitLsn && all[1] == TimelineMetric::BackupLsn && all[2]
        == TimelineMetric::FlushLsn && all[3] == TimelineMetric::EpochStartLsn && all[4]
        == TimelineMetric::PeerHorizonLsn && all[5] == TimelineMetric::RemoteConsistentLsn && all[6]
        == TimelineMetric::PsLastReceivedLsn && all[7] == TimelineMetric::FeedbackLastTimeSeconds
        && all[8] == TimelineMetric::TimelineActive && all[9] == TimelineMetric::WalBackupActive
        && all[10] == TimelineMetric::ConnectedComputes && all[11] == TimelineMetric::DiskUsage
        && all[12] == TimelineMetric::AcceptorTerm && all[13] == TimelineMetric::WrittenWalBytes
        && all[14] == TimelineMetric::WrittenWalSeconds && all[15]
        == TimelineMetric::FlushedWalSeconds);
}

/// One more timeline adds one to the number of active ones exactly if it is active, wherever it
/// stands among the others.
pub proof fn active_timelines_are_counted(a: Seq<FullTimelineInfo>, b: Seq<FullTimelineInfo>)
    ensures
        active_count(a + b) == active_count(a) + active_count(b),
        forall|info: FullTimelineInfo| #[trigger]
            active_count(seq![info]) == if info.timeline_is_active {
                1nat
            } else {
                0nat
            },
        active_count(Seq::empty()) == 0,
    decreases b.len(),
{
    assert forall|info: FullTimelineInfo| #[trigger]
        active_count(seq![info]) == if info.timeline_is_active {
            1nat
        } else {
            0nat
        } by {
        reveal_with_fuel(active_count, 2);
        assert(seq![info].drop_last().len() == 0);
    }
    if b.len() > 0 {
        active_timelines_are_counted(a, b.drop_last());
        assert((a + b).drop_last() =~= a + b.drop_last());
        assert((a + b).last() == b.last());
    } else {
        assert(a + b =~= a);
    }
}

/// Traffic is counted under what is known of the connection, and the direction.
pub proof fn traffic_is_counted_by_connection(labels: ConnectionLabels, dir: Seq<char>)
    ensures
        series_of(labels, dir).client_az == labels.client_az@,
        series_of(labels, dir).sk_az == labels.sk_az@,
        series_of(labels, dir).app_name == labels.app_name@,
        series_of(labels, dir).dir == dir,
        series_of(labels, dir).same_az == same_az_label(labels.client_az@, labels.sk_az@),
{
}

/// A first count begins at zero, and a further one is added.
pub proof fn counts_begin_at_zero(
    counters: Map<SeriesModel, int>,
    series: SeriesModel,
    bytes: int,
)
    ensures
        counted(counters, series, bytes).dom().contains(series),
        !counters.dom().contains(series) ==> counted(counters, series, bytes)[series] == bytes,
        counters.dom().contains(series) ==> counted(counters, series, bytes)[series]
            == counters[series] + bytes,
{
}

/// The labels of a connection's counters are what is known of the connection, and whether both
/// of its ends are in one zone.
pub proof fn counters_describe_their_connection(
    s: TrafficLabels,
    labels: ConnectionLabels,
    dir: Seq<char>,
)
    ensures
        s.describe(labels, dir) <==> s.client_az@ == labels.client_az@ && s.sk_az@
            == labels.sk_az@ && s.app_name@ == labels.app_name@ && s.dir@ == dir && s.same_az@
            == same_az_label(labels.client_az@, labels.sk_az@),
{
}

} // verus!
