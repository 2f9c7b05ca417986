//! Backup of the write-ahead log: segments, the order of their upload, retries, and which
//! backup tasks run.
use vstd::prelude::*;

use crate::base::lsn::Lsn;
use crate::base::ordered_map::MapKey;
use crate::base::ordered_map::OrderedMap;
use crate::base::paths;
use crate::base::text;
use crate::pageserver::ids::TenantId;
use crate::pageserver::ids::TimelineId;
use crate::safekeeper::election;
use crate::safekeeper::election::NodeId;
use crate::safekeeper::election::PeerInfo;

verus! {

pub const UPLOAD_FAILURE_RETRY_MIN_MS: u64 = 10;

pub const UPLOAD_FAILURE_RETRY_MAX_MS: u64 = 5000;

/// How often the launcher looks at all its timelines, in milliseconds.
pub const CHECK_TASKS_INTERVAL_MSEC: u64 = 1000;

/// How many objects are deleted at a time.
pub const DELETE_BATCH_SIZE: u32 = 1000;

/// The timeline of Postgres in which all log is written.
pub const PG_TLI: u64 = 1;

/// A timeline of a tenant.  They are ordered by tenant, then by timeline.
#[derive(Clone, Copy, Debug, PartialEq, Eq, Structural, Hash)]
pub struct TenantTimelineId {
    pub tenant_id: TenantId,
    pub timeline_id: TimelineId,
}

impl MapKey for TenantTimelineId {
    open spec fn rank(self) -> int {
        self.tenant_id.0 * 0x1_0000_0000_0000_0000_0000_0000_0000_0000 + self.timeline_id.0
    }

    proof fn rank_is_unique(a: Self, b: Self) {
    }

    fn precedes(&self, other: &Self) -> bool {
        if self.tenant_id.0 != other.tenant_id.0 {
            self.tenant_id.0 < other.tenant_id.0
        } else {
            self.timeline_id.0 < other.timeline_id.0
        }
    }
}

/// How many segments of `size` bytes make four gigabytes.
pub open spec fn segments_per_id(size: int) -> int {
    0x1_0000_0000int / size
}

/// The name of the file of a segment.
pub open spec fn segment_name(seg_no: u64, size: int) -> Seq<char> {
    text::hex(PG_TLI as nat, 8) + text::hex((seg_no as int / segments_per_id(size)) as nat, 8)
        + text::hex((seg_no as int % segments_per_id(size)) as nat, 8)
}

/// The name of the file of a segment.
pub fn xlog_file_name(seg_no: u64, size: usize) -> (r: String)
    requires
        0 < size <= 0x1_0000_0000,
    ensures
        r@ == segment_name(seg_no, size as int),
{
    let per_id: u64 = 0x1_0000_0000u64 / size as u64;
    assert(per_id > 0) by {
        assert(0x1_0000_0000int / (size as int) >= 1) by (nonlinear_arith)
            requires
                0 < size <= 0x1_0000_0000,
        ;
    }
    let mut r = text::hex_text(PG_TLI, 8);
    let high = text::hex_text(seg_no / per_id, 8);
    let low = text::hex_text(seg_no % per_id, 8);
    r.append(high.as_str());
    r.append(low.as_str());
    r
}

/// A segment of the log.
#[derive(Clone, Copy, Debug, PartialEq, Eq, Structural)]
pub struct Segment {
    pub seg_no: u64,
    pub start_lsn: Lsn,
    pub end_lsn: Lsn,
}

impl Segment {
    /// How many bytes it has.
    pub open spec fn bytes(self) -> int {
        self.end_lsn.0 - self.start_lsn.0
    }

    pub fn new(seg_no: u64, start_lsn: Lsn, end_lsn: Lsn) -> (r: Segment)
        ensures
            r == (Segment { seg_no, start_lsn, end_lsn }),
    {
        Segment { seg_no, start_lsn, end_lsn }
    }

    /// The name of its file.
    pub fn object_name(self) -> (r: String)
        requires
            0 < self.bytes() <= 0x1_0000_0000,
            self.bytes() <= usize::MAX,
        ensures
            r@ == segment_name(self.seg_no, self.bytes()),
    {
        xlog_file_name(self.seg_no, self.size())
    }

    /// The path of its file in the directory of a timeline.
    pub fn file_path(self, timeline_dir: &str) -> (r: String)
        requires
            0 < self.bytes() <= 0x1_0000_0000,
            self.bytes() <= usize::MAX,
        ensures
            r@ == paths::joined_path(timeline_dir@, segment_name(self.seg_no, self.bytes())),
    {
        let name = self.object_name();
        paths::path_join(timeline_dir, name.as_str())
    }

    /// How many bytes it has.
    pub fn size(self) -> (r: usize)
        requires
            0 <= self.bytes() <= usize::MAX,
        ensures
            r == self.bytes(),
    {
        (self.end_lsn.0 - self.start_lsn.0) as usize
    }
}

/// Where a segment is on the local disk and in the remote storage.
pub struct SegmentPaths {
    pub local: String,
    pub remote: String,
}

/// Why a segment cannot be uploaded.
#[derive(Clone, Copy, Debug, PartialEq, Eq, Structural)]
pub enum SegmentPathError {
    /// The directory of the timeline is not within the workspace.
    OutsideWorkspace,
}

/// Where a segment is, and where it goes to: the remote storage mirrors the workspace.
pub fn segment_paths(seg: &Segment, timeline_dir: &str, workspace_dir: &str) -> (r: Result<
    SegmentPaths,
    SegmentPathError,
>)
    requires
        0 < seg.bytes() <= 0x1_0000_0000,
        seg.bytes() <= usize::MAX,
    ensures
        ({
            let local = paths::joined_path(
                timeline_dir@,
                segment_name(seg.seg_no, seg.bytes()),
            );
            match paths::stripped_path(local, workspace_dir@) {
                Some(remote) => r matches Ok(p) && p.local@ == local && p.remote@ == remote,
                None => r == Err::<SegmentPaths, SegmentPathError>(
                    SegmentPathError::OutsideWorkspace,
                ),
            }
        }),
{
    let local = seg.file_path(timeline_dir);
    match paths::path_strip_prefix(local.as_str(), workspace_dir) {
        Some(remote) => Ok(SegmentPaths { local, remote }),
        None => Err(SegmentPathError::OutsideWorkspace),
    }
}

/// The segment of a number.
pub open spec fn segment_at(seg_no: int, size: int) -> Segment {
    Segment {
        seg_no: seg_no as u64,
        start_lsn: Lsn((seg_no * size) as u64),
        end_lsn: Lsn(((seg_no + 1) * size) as u64),
    }
}

/// The segments that are complete between two positions: from the one that the first is in
/// up to the one before the one that the second is in.
pub open spec fn segments_between(start: Lsn, end: Lsn, size: int) -> Seq<Segment> {
    let first = start.0 as int / size;
    let last = end.0 as int / size;
    Seq::new(
        if last >= first {
            (last - first) as nat
        } else {
            0
        },
        |i: int| segment_at(first + i, size),
    )
}

/// The end of a segment before the last is a position.
proof fn lemma_segment_fits(seg_no: int, last: int, end: int, size: int)
    requires
        size > 0,
        last == end / size,
        0 <= seg_no < last,
        0 <= end <= u64::MAX,
    ensures
        0 <= seg_no * size,
        seg_no * size + size == (seg_no + 1) * size,
        (seg_no + 1) * size <= end,
{
    assert(0 <= seg_no * size) by (nonlinear_arith)
        requires
            seg_no >= 0,
            size > 0,
    ;
    assert(seg_no * size + size == (seg_no + 1) * size) by (nonlinear_arith);
    assert((seg_no + 1) * size <= last * size) by (nonlinear_arith)
        requires
            seg_no + 1 <= last,
            size > 0,
    ;
    vstd::arithmetic::div_mod::lemma_fundamental_div_mod(end, size);
    assert(last * size <= end) by (nonlinear_arith)
        requires
            end == size * last + end % size,
            end % size >= 0,
    ;
}

/// The segments that are complete between two positions.
pub fn get_segments(start: Lsn, end: Lsn, seg_size: usize) -> (r: Vec<Segment>)
    requires
        seg_size > 0,
    ensures
        r@ == segments_between(start, end, seg_size as int),
{
    let first_seg = start.segment_number(seg_size);
    let last_seg = end.segment_number(seg_size);
    let mut res: Vec<Segment> = Vec::new();
    let mut s: u64 = first_seg;
    while s < last_seg
        invariant
            seg_size > 0,
            first_seg == start.0 as int / seg_size as int,
            last_seg == end.0 as int / seg_size as int,
            first_seg <= s,
            s <= last_seg || s == first_seg,
            res@.len() == s - first_seg,
            forall|i: int|
                0 <= i < res@.len() ==> #[trigger] res@[i] == segment_at(
                    first_seg + i,
                    seg_size as int,
                ),
        decreases last_seg - s,
    {
        proof {
            lemma_segment_fits(s as int, last_seg as int, end.0 as int, seg_size as int);
        }
        let start_lsn: u64 = s * seg_size as u64;
        let end_lsn: u64 = (s + 1) * seg_size as u64;
        res.push(Segment::new(s, Lsn(start_lsn), Lsn(end_lsn)));
        s += 1;
    }
    assert(res@ =~= segments_between(start, end, seg_size as int));
    res
}

/// Each segment that is to be backed up begins where the one before ends, the first one
/// begins at or before the starting position, and the last one ends at or before the end.
pub proof fn segments_are_contiguous(start: Lsn, end: Lsn, size: int)
    requires
        size > 0,
    ensures
        ({
            let segments = segments_between(start, end, size);
            &&& forall|i: int|
                0 <= i < segments.len() ==> (#[trigger] segments[i]).bytes() == size
                    && segments[i].start_lsn.0 == segments[i].seg_no * size
            &&& forall|i: int|
                0 < i < segments.len() ==> segments[i - 1].end_lsn == (
                #[trigger] segments[i]).start_lsn
            &&& segments.len() > 0 ==> segments[0].start_lsn.0 <= start.0
                < segments[0].end_lsn.0 && segments.last().end_lsn.0 <= end.0
                < segments.last().end_lsn.0 + size
        }),
{
    let segments = segments_between(start, end, size);
    let first = start.0 as int / size;
    let last = end.0 as int / size;
    vstd::arithmetic::div_mod::lemma_fundamental_div_mod(start.0 as int, size);
    vstd::arithmetic::div_mod::lemma_fundamental_div_mod(end.0 as int, size);
    assert(first >= 0) by (nonlinear_arith)
        requires
            first == start.0 as int / size,
            size > 0,
    ;
    assert forall|i: int| 0 <= i < segments.len() implies {
        &&& (#[trigger] segments[i]).bytes() == size
        &&& segments[i].start_lsn.0 == segments[i].seg_no * size
        &&& segments[i].start_lsn.0 == (first + i) * size
        &&& segments[i].end_lsn.0 == (first + i + 1) * size
    } by {
        lemma_segment_fits(first + i, last, end.0 as int, size);
        assert(first + i <= (first + i) * size) by (nonlinear_arith)
            requires
                first + i >= 0,
                size > 0,
        ;
    }
    if segments.len() > 0 {
        assert(segments[0].start_lsn.0 == first * size);
        let n = segments.len() - 1;
        assert(segments[n].end_lsn.0 == (first + n + 1) * size);
        assert(first + n + 1 == last);
        assert(size * first == first * size) by (nonlinear_arith);
        assert(size * last == last * size) by (nonlinear_arith);
        assert((first + 1) * size == first * size + size) by (nonlinear_arith);
    }
}

/// A number below four giga has no more than eight hexadecimal digits.
proof fn lemma_eight_digits(n: nat)
    requires
        n < 0x1_0000_0000,
    ensures
        text::hex_fits(n, 8),
{
    reveal_with_fuel(text::hex_fits, 9);
}

/// Segments of the same size have different names.
pub proof fn segment_names_are_distinct(a: u64, b: u64, size: int)
    requires
        0 < size <= 0x1_0000_0000,
        segment_name(a, size) == segment_name(b, size),
    ensures
        a == b,
{
    let per_id = segments_per_id(size);
    assert(1 <= per_id <= 0x1_0000_0000) by (nonlinear_arith)
        requires
            per_id == 0x1_0000_0000int / size,
            0 < size <= 0x1_0000_0000,
    ;
    let (ha, la) = (a as int / per_id, a as int % per_id);
    let (hb, lb) = (b as int / per_id, b as int % per_id);
    vstd::arithmetic::div_mod::lemma_fundamental_div_mod(a as int, per_id);
    vstd::arithmetic::div_mod::lemma_fundamental_div_mod(b as int, per_id);
    vstd::arithmetic::div_mod::lemma_mod_bound(a as int, per_id);
    vstd::arithmetic::div_mod::lemma_mod_bound(b as int, per_id);
    vstd::arithmetic::div_mod::lemma_div_pos_is_pos(a as int, per_id);
    vstd::arithmetic::div_mod::lemma_div_pos_is_pos(b as int, per_id);
    lemma_eight_digits(la as nat);
    lemma_eight_digits(lb as nat);
    text::hex_len(la as nat, 8);
    text::hex_len(lb as nat, 8);
    let t = text::hex(PG_TLI as nat, 8);
    let (xa, xb) = (text::hex(ha as nat, 8), text::hex(hb as nat, 8));
    let (ya, yb) = (text::hex(la as nat, 8), text::hex(lb as nat, 8));
    let (na, nb) = (segment_name(a, size), segment_name(b, size));
    assert(na.len() == t.len() + xa.len() + 8);
    assert(nb.len() == t.len() + xb.len() + 8);
    assert(ya =~= na.subrange(na.len() - 8, na.len() as int));
    assert(yb =~= nb.subrange(nb.len() - 8, nb.len() as int));
    assert(xa =~= na.subrange(t.len() as int, na.len() - 8));
    assert(xb =~= nb.subrange(t.len() as int, nb.len() - 8));
    text::hex_is_injective(ha as nat, hb as nat, 8);
    text::hex_is_injective(la as nat, lb as nat, 8);
}

/// How long to wait before the next attempt, in milliseconds.
pub open spec fn retry_delay_of(retry_attempt: u32) -> u64 {
    if retry_attempt < 64 && (10u64 << (retry_attempt as u64)) < UPLOAD_FAILURE_RETRY_MAX_MS {
        10u64 << (retry_attempt as u64)
    } else {
        UPLOAD_FAILURE_RETRY_MAX_MS
    }
}

/// How long to wait before the next attempt, in milliseconds: twice as long each time, up to
/// a limit.
pub fn retry_delay(retry_attempt: u32) -> (r: u64)
    ensures
        r == retry_delay_of(retry_attempt),
{
    if retry_attempt < 64 {
        let backoff_delay: u64 = UPLOAD_FAILURE_RETRY_MIN_MS << (retry_attempt as u64);
        if backoff_delay < UPLOAD_FAILURE_RETRY_MAX_MS {
            return backoff_delay;
        }
    }
    UPLOAD_FAILURE_RETRY_MAX_MS
}

/// The delay is never above the limit; it doubles with the attempts until it reaches the
/// limit, and stays there.  Attempt 63 is the exception: its delay is zero, because no bit of it
/// is left after the shift.
pub proof fn delays_double_up_to_the_limit(attempt: u32)
    requires
        1 <= attempt,
        attempt != 63,
    ensures
        retry_delay_of(attempt) <= UPLOAD_FAILURE_RETRY_MAX_MS,
        attempt <= 8 ==> retry_delay_of(attempt) == 2 * retry_delay_of((attempt - 1) as u32),
        attempt >= 9 ==> retry_delay_of(attempt) == UPLOAD_FAILURE_RETRY_MAX_MS,
{
    let n = attempt as u64;
    assert(n >= 9 && n <= 62 ==> (10u64 << n) >= 5000) by (bit_vector);
    let m = (attempt - 1) as u64;
    assert((n <= 8 ==> (10u64 << n) < 5000 && (10u64 << n) == 2 * (10u64 << m))) by (bit_vector)
        requires
            n == m + 1,
    ;
    assert(m == (attempt - 1) as u32 as u64);
}

/// What a backup task waits for.
#[derive(Clone, Copy, Debug, PartialEq, Eq, Structural)]
pub enum BackupWait {
    /// New log.
    NewWal,
    /// This many milliseconds.
    Sleep(u64),
}

/// What a backup task knows.
pub struct WalBackupTask {
    pub wal_seg_size: usize,
    pub parallel_jobs: usize,
    /// Up to where the log is backed up, as far as known.
    pub backup_lsn: Lsn,
    /// How many attempts have failed since the last success.
    pub retry_attempt: u32,
}

impl WalBackupTask {
    /// Whether the log up to a position, but for the segment that it is in, is backed up.
    pub open spec fn is_done(self, backup_lsn: Lsn, commit_lsn: Lsn) -> bool {
        backup_lsn.0 as int / self.wal_seg_size as int >= commit_lsn.0 as int
            / self.wal_seg_size as int
    }

    /// A task that knows of no backup.
    pub fn new(wal_seg_size: usize, parallel_jobs: usize) -> (r: WalBackupTask)
        requires
            wal_seg_size > 0,
        ensures
            r == (WalBackupTask {
                wal_seg_size,
                parallel_jobs,
                backup_lsn: Lsn(0),
                retry_attempt: 0,
            }),
    {
        WalBackupTask { wal_seg_size, parallel_jobs, backup_lsn: Lsn(0), retry_attempt: 0 }
    }

    /// What to wait for: new log, or some time where the last attempt failed.
    pub fn wait(&self) -> (r: BackupWait)
        ensures
            r == if self.retry_attempt == 0 {
                BackupWait::NewWal
            } else {
                BackupWait::Sleep(retry_delay_of(self.retry_attempt))
            },
    {
        if self.retry_attempt == 0 {
            BackupWait::NewWal
        } else {
            BackupWait::Sleep(retry_delay(self.retry_attempt))
        }
    }

    /// Looks whether there is anything to do as far as known; if not, goes on waiting for new
    /// log.
    pub fn check_known(&mut self, commit_lsn: Lsn) -> (r: bool)
        requires
            old(self).wal_seg_size > 0,
        ensures
            r == !old(self).is_done(old(self).backup_lsn, commit_lsn),
            *final(self) == (WalBackupTask {
                retry_attempt: if r {
                    old(self).retry_attempt
                } else {
                    0
                },
                ..*old(self)
            }),
    {
        // Note that backup_lsn can be higher than commit_lsn if we
        // don't have much local WAL and others already uploaded
        // segments we don't even have.
        if self.backup_lsn.segment_number(self.wal_seg_size) >= commit_lsn.segment_number(
            self.wal_seg_size,
        ) {
            self.retry_attempt = 0;
            false
        } else {
            true
        }
    }

    /// Takes over the position that is shared with peers, which may have advanced it, and
    /// looks again whether there is anything to do.
    pub fn check_shared(&mut self, shared_backup_lsn: Lsn, commit_lsn: Lsn) -> (r: bool)
        requires
            old(self).wal_seg_size > 0,
        ensures
            r == !old(self).is_done(shared_backup_lsn, commit_lsn),
            *final(self) == (WalBackupTask {
                backup_lsn: shared_backup_lsn,
                retry_attempt: if r {
                    old(self).retry_attempt
                } else {
                    0
                },
                ..*old(self)
            }),
    {
        self.backup_lsn = shared_backup_lsn;
        self.check_known(commit_lsn)
    }

    /// Takes note of the end of an attempt, with the position that it has reached.
    pub fn attempt_ended(&mut self, backup_lsn: Lsn, succeeded: bool)
        ensures
            *final(self) == (WalBackupTask {
                backup_lsn,
                retry_attempt: if succeeded {
                    0
                } else if old(self).retry_attempt < u32::MAX {
                    (old(self).retry_attempt + 1) as u32
                } else {
                    u32::MAX
                },
                ..*old(self)
            }),
    {
        self.backup_lsn = backup_lsn;
        if succeeded {
            self.retry_attempt = 0;
        } else {
            self.retry_attempt = self.retry_attempt.saturating_add(1);
        }
    }
}

/// What an upload of several segments does next.
#[derive(Clone, Copy, Debug, PartialEq, Eq, Structural)]
pub enum UploadStep {
    /// Start uploading a segment.
    Start(Segment),
    /// Wait for the oldest upload that is under way.
    AwaitOldest,
    Done,
}

/// An upload of several segments.  Some are under way at a time, but they are taken note of
/// in order, and the backup position advances only over segments that are all uploaded.
pub struct RangeUpload {
    pub segments: Vec<Segment>,
    pub parallel_jobs: usize,
    /// How many uploads have been started.
    pub started: usize,
    /// How many uploads have been taken note of.
    pub uploaded: usize,
    pub start_lsn: Lsn,
    /// Up to where the log is backed up.
    pub backup_lsn: Lsn,
}

/// An upload cannot be started: there is nothing that uploads.
#[derive(Clone, Copy, Debug, PartialEq, Eq, Structural)]
pub struct NoParallelJobs;

impl RangeUpload {
    pub open spec fn wf(self) -> bool {
        &&& self.parallel_jobs >= 1
        &&& self.uploaded <= self.started <= self.segments@.len()
        &&& self.started - self.uploaded <= self.parallel_jobs
        &&& self.backup_lsn == if self.uploaded == 0 {
            self.start_lsn
        } else {
            self.segments@[self.uploaded - 1].end_lsn
        }
    }

    /// An upload of the segments that are complete between two positions.
    pub fn new(backup_lsn: Lsn, end_lsn: Lsn, wal_seg_size: usize, parallel_jobs: usize) -> (r:
        Result<RangeUpload, NoParallelJobs>)
        requires
            wal_seg_size > 0,
        ensures
            match r {
                Ok(u) => {
                    &&& parallel_jobs >= 1
                    &&& u.wf()
                    &&& u.segments@ == segments_between(backup_lsn, end_lsn, wal_seg_size as int)
                    &&& u.parallel_jobs == parallel_jobs
                    &&& u.started == 0
                    &&& u.uploaded == 0
                    &&& u.start_lsn == backup_lsn
                },
                Err(_) => parallel_jobs == 0,
            },
    {
        if parallel_jobs < 1 {
            return Err(NoParallelJobs);
        }
        Ok(
            RangeUpload {
                segments: get_segments(backup_lsn, end_lsn, wal_seg_size),
                parallel_jobs,
                started: 0,
                uploaded: 0,
                start_lsn: backup_lsn,
                backup_lsn,
            },
        )
    }

    /// What to do next.  A segment that is to be uploaded counts as started.
    pub fn next_step(&mut self) -> (r: UploadStep)
        requires
            old(self).wf(),
        ensures
            final(self).wf(),
            r == if old(self).started - old(self).uploaded >= old(self).parallel_jobs {
                UploadStep::AwaitOldest
            } else if old(self).started < old(self).segments@.len() {
                UploadStep::Start(old(self).segments@[old(self).started as int])
            } else if old(self).uploaded < old(self).started {
                UploadStep::AwaitOldest
            } else {
                UploadStep::Done
            },
            *final(self) == (RangeUpload {
                started: if r is Start {
                    (old(self).started + 1) as usize
                } else {
                    old(self).started
                },
                ..*old(self)
            }),
    {
        // Wait for the next segment to upload if there are no more segments, or if too many
        // uploads are under way.
        if self.started - self.uploaded >= self.parallel_jobs {
            UploadStep::AwaitOldest
        } else if self.started < self.segments.len() {
            let segment = self.segments[self.started];
            self.started = self.started + 1;
            UploadStep::Start(segment)
        } else if self.uploaded < self.started {
            UploadStep::AwaitOldest
        } else {
            UploadStep::Done
        }
    }

    /// Takes note of the oldest upload that was under way: the new backup position.
    pub fn oldest_uploaded(&mut self) -> (r: Lsn)
        requires
            old(self).wf(),
            old(self).uploaded < old(self).started,
        ensures
            final(self).wf(),
            r == old(self).segments@[old(self).uploaded as int].end_lsn,
            *final(self) == (RangeUpload {
                uploaded: (old(self).uploaded + 1) as usize,
                backup_lsn: r,
                ..*old(self)
            }),
    {
        let end_lsn = self.segments[self.uploaded].end_lsn;
        self.uploaded = self.uploaded + 1;
        self.backup_lsn = end_lsn;
        end_lsn
    }
}

/// At each moment, the log between the starting position and the backup position is covered
/// by the segments that have been uploaded.
pub proof fn backup_position_is_covered(u: RangeUpload, end: Lsn, size: int, lsn: u64)
    requires
        size > 0,
        u.wf(),
        u.segments@ == segments_between(u.start_lsn, end, size),
        u.start_lsn.0 <= lsn < u.backup_lsn.0,
    ensures
        exists|i: int|
            0 <= i < u.uploaded && (#[trigger] u.segments@[i]).start_lsn.0 <= lsn
                < u.segments@[i].end_lsn.0,
{
    segments_are_contiguous(u.start_lsn, end, size);
    let n = u.uploaded as int;
    lemma_covered(u.segments@.take(n), lsn);
    let t = u.segments@.take(n);
    let i = choose|i: int|
        0 <= i < t.len() && (#[trigger] t[i]).start_lsn.0 <= lsn < t[i].end_lsn.0;
    assert(u.segments@[i] == t[i]);
}

/// Contiguous segments cover what lies between their ends.
proof fn lemma_covered(s: Seq<Segment>, lsn: u64)
    requires
        s.len() > 0,
        forall|i: int| 0 < i < s.len() ==> s[i - 1].end_lsn == (#[trigger] s[i]).start_lsn,
        s[0].start_lsn.0 <= lsn < s.last().end_lsn.0,
    ensures
        exists|i: int|
            0 <= i < s.len() && (#[trigger] s[i]).start_lsn.0 <= lsn < s[i].end_lsn.0,
    decreases s.len(),
{
    if s.last().start_lsn.0 <= lsn {
        assert(s[s.len() - 1].start_lsn.0 <= lsn);
    } else {
        let t = s.drop_last();
        assert(s[s.len() - 1 - 1].end_lsn == s[s.len() - 1].start_lsn);
        assert forall|i: int| 0 < i < t.len() implies t[i - 1].end_lsn == (
        #[trigger] t[i]).start_lsn by {
            assert(s[i - 1].end_lsn == s[i].start_lsn);
        }
        lemma_covered(t, lsn);
        let i = choose|i: int|
            0 <= i < t.len() && (#[trigger] t[i]).start_lsn.0 <= lsn < t[i].end_lsn.0;
        assert(s[i] == t[i]);
    }
}

/// Where nothing more is to be done, the backup position is in the same segment as the end,
/// unless it was already beyond it.
pub proof fn a_finished_upload_reaches_the_end(u: RangeUpload, end: Lsn, size: int)
    requires
        size > 0,
        u.wf(),
        u.segments@ == segments_between(u.start_lsn, end, size),
        u.uploaded == u.segments@.len(),
    ensures
        u.backup_lsn.0 as int / size >= end.0 as int / size,
{
    segments_are_contiguous(u.start_lsn, end, size);
    let first = u.start_lsn.0 as int / size;
    let last = end.0 as int / size;
    if last > first {
        let n = u.segments@.len() - 1;
        assert(first >= 0) by (nonlinear_arith)
            requires
                first == u.start_lsn.0 as int / size,
                size > 0,
        ;
        lemma_segment_fits(first + n, last, end.0 as int, size);
        assert(u.backup_lsn.0 == last * size);
        vstd::arithmetic::div_mod::lemma_div_multiples_vanish(last, size);
        assert(last * size == size * last) by (nonlinear_arith);
    }
}

/// What becomes of the backup task of a timeline.
#[derive(Clone, Copy, Debug, PartialEq, Eq, Structural)]
pub enum TaskChange {
    Keep,
    Start,
    /// Tell the task to shut down and wait for it.
    Stop,
}

/// What a message about a timeline leads to.
#[derive(Clone, Copy, Debug, PartialEq, Eq, Structural)]
pub enum LauncherStep {
    Nothing,
    /// The timeline is tracked from now on: an election is due.
    Elect,
    /// The timeline is no longer tracked; its task is to be shut down if there is one.
    Forget { shut_down_task: bool },
}

/// The timelines that need offloading, and for each whether its task runs here.
pub struct WalBackupLauncher {
    pub my_id: NodeId,
    pub enabled: bool,
    pub max_offloader_lag_bytes: u64,
    pub tasks: OrderedMap<TenantTimelineId, bool>,
}

impl WalBackupLauncher {
    pub open spec fn wf(self) -> bool {
        self.tasks.wf()
    }

    /// A launcher that tracks no timeline.
    pub fn new(my_id: NodeId, enabled: bool, max_offloader_lag_bytes: u64) -> (r:
        WalBackupLauncher)
        ensures
            r.wf(),
            r.my_id == my_id,
            r.enabled == enabled,
            r.max_offloader_lag_bytes == max_offloader_lag_bytes,
            r.tasks@ == Map::<TenantTimelineId, bool>::empty(),
    {
        WalBackupLauncher { my_id, enabled, max_offloader_lag_bytes, tasks: OrderedMap::new() }
    }

    /// Takes a message about a timeline into account.  `required` says whether the timeline
    /// exists, so that its log is to be backed up.
    pub fn on_message(&mut self, ttid: TenantTimelineId, required: bool) -> (r: LauncherStep)
        requires
            old(self).wf(),
        ensures
            final(self).wf(),
            final(self).my_id == old(self).my_id,
            final(self).enabled == old(self).enabled,
            final(self).max_offloader_lag_bytes == old(self).max_offloader_lag_bytes,
            ({
                let known = old(self).tasks@.dom().contains(ttid);
                if !old(self).enabled || required == known {
                    r == LauncherStep::Nothing && final(self).tasks@ == old(self).tasks@
                } else if required {
                    r == LauncherStep::Elect && final(self).tasks@ == old(self).tasks@.insert(
                        ttid,
                        false,
                    )
                } else {
                    r == LauncherStep::Forget { shut_down_task: old(self).tasks@[ttid] }
                        && final(self).tasks@ == old(self).tasks@.remove(ttid)
                }
            }),
    {
        if !self.enabled {
            return LauncherStep::Nothing;
        }
        let running = match self.tasks.get(&ttid) {
            Some(running) => Some(*running),
            None => None,
        };
        match (required, running) {
            (true, None) => {
                self.tasks.insert(ttid, false);
                LauncherStep::Elect
            },
            (false, Some(running)) => {
                self.tasks.remove(&ttid);
                LauncherStep::Forget { shut_down_task: running }
            },
            _ => LauncherStep::Nothing,
        }
    }

    /// Elects the safekeeper that offloads a timeline that is tracked.  Where it is this one,
    /// the task is to run; where it is not, it is not to.  Besides, it tells why the election
    /// has ended as it did.
    pub fn update_task(
        &mut self,
        ttid: TenantTimelineId,
        alive_peers: &Vec<PeerInfo>,
        wal_backup_lsn: Lsn,
    ) -> (r: (TaskChange, String))
        requires
            old(self).wf(),
            old(self).tasks@.dom().contains(ttid),
        ensures
            final(self).wf(),
            final(self).my_id == old(self).my_id,
            final(self).enabled == old(self).enabled,
            final(self).max_offloader_lag_bytes == old(self).max_offloader_lag_bytes,
            ({
                let elected_me = election::offloader(
                    alive_peers@,
                    wal_backup_lsn,
                    ttid.timeline_id,
                    old(self).max_offloader_lag_bytes,
                ) == Some(old(self).my_id);
                &&& final(self).tasks@ == old(self).tasks@.insert(ttid, elected_me)
                &&& r.0 == if elected_me == old(self).tasks@[ttid] {
                    TaskChange::Keep
                } else if elected_me {
                    TaskChange::Start
                } else {
                    TaskChange::Stop
                }
            }),
            r.1@ == election::explanation_for(
                alive_peers@,
                wal_backup_lsn,
                ttid.timeline_id,
                old(self).max_offloader_lag_bytes,
            ),
    {
        let outcome = election::determine_offloader(
            alive_peers,
            wal_backup_lsn,
            ttid.timeline_id,
            self.max_offloader_lag_bytes,
        );
        let elected_me = match outcome.offloader {
            Some(id) => id.0 == self.my_id.0,
            None => false,
        };
        let running = match self.tasks.get(&ttid) {
            Some(running) => *running,
            None => false,
        };
        self.tasks.insert(ttid, elected_me);
        let change = if elected_me == running {
            TaskChange::Keep
        } else if elected_me {
            TaskChange::Start
        } else {
            TaskChange::Stop
        };
        (change, outcome.explanation())
    }

    /// The timelines that are tracked, in order: each is looked at now and then.
    pub fn timelines(&self) -> (r: Vec<TenantTimelineId>)
        ensures
            r@.len() == self.tasks.entries@.len(),
            forall|i: int|
                0 <= i < r@.len() ==> #[trigger] r@[i] == self.tasks.entries@[i].0,
    {
        let mut r: Vec<TenantTimelineId> = Vec::new();
        let mut i: usize = 0;
        while i < self.tasks.entries.len()
            invariant
                i <= self.tasks.entries@.len(),
                r@.len() == i,
                forall|j: int| 0 <= j < i ==> #[trigger] r@[j] == self.tasks.entries@[j].0,
            decreases self.tasks.entries@.len() - i,
        {
            r.push(self.tasks.entries[i].0);
            i += 1;
        }
        r
    }
}

/// What the deletion of a timeline's objects does with a list of the objects that are left.
#[derive(Clone, Copy, Debug, PartialEq, Eq, Structural)]
pub enum DeletionBatch {
    Done,
    /// Delete those that were listed, then list again.
    DeleteListed,
}

/// The deletion ends when nothing is left.
pub fn deletion_batch(listed: &Vec<String>) -> (r: DeletionBatch)
    ensures
        r == if listed@.len() == 0 {
            DeletionBatch::Done
        } else {
            DeletionBatch::DeleteListed
        },
{
    if listed.len() == 0 {
        DeletionBatch::Done
    } else {
        DeletionBatch::DeleteListed
    }
}

/// Whether a name is among those of a list.
pub open spec fn is_listed(names: Seq<String>, name: Seq<char>) -> bool {
    exists|i: int| 0 <= i < names.len() && (#[trigger] names[i])@ == name
}

/// Whether a name is among those of a list.
fn listed(names: &Vec<String>, name: &String) -> (r: bool)
    ensures
        r == is_listed(names@, name@),
{
    let mut i: usize = 0;
    while i < names.len()
        invariant
            i <= names@.len(),
            forall|j: int| 0 <= j < i ==> (#[trigger] names@[j])@ != name@,
        decreases names@.len() - i,
    {
        if names[i] == *name {
            assert(names@[i as int]@ == name@);
            return true;
        }
        i += 1;
    }
    false
}

/// A copy of an object in the remote storage.
pub struct ObjectCopy {
    pub from: String,
    pub to: String,
}

/// The copies of segments up to, not including, `to_segment` that are not there yet: source
/// and destination of each, in order.
pub open spec fn copies(
    size: int,
    src_path: Seq<char>,
    dst_path: Seq<char>,
    from_segment: u64,
    to_segment: int,
    uploaded: Seq<String>,
) -> Seq<(Seq<char>, Seq<char>)>
    decreases to_segment - from_segment,
{
    if to_segment <= from_segment {
        Seq::empty()
    } else {
        let front = copies(size, src_path, dst_path, from_segment, to_segment - 1, uploaded);
        let name = segment_name((to_segment - 1) as u64, size);
        if is_listed(uploaded, name) {
            front
        } else {
            front.push((paths::joined_path(src_path, name), paths::joined_path(dst_path, name)))
        }
    }
}

/// The copies as plain values.
pub open spec fn copy_models(s: Seq<ObjectCopy>) -> Seq<(Seq<char>, Seq<char>)> {
    Seq::new(s.len(), |i: int| (s[i].from@, s[i].to@))
}

/// Plans the copy of segments from one timeline to another: those that have not been uploaded
/// yet, in order.
pub fn copy_s3_segments(
    wal_seg_size: usize,
    src_path: &str,
    dst_path: &str,
    from_segment: u64,
    to_segment: u64,
    uploaded_segments: &Vec<String>,
) -> (r: Vec<ObjectCopy>)
    requires
        0 < wal_seg_size <= 0x1_0000_0000,
    ensures
        copy_models(r@) == copies(
            wal_seg_size as int,
            src_path@,
            dst_path@,
            from_segment,
            to_segment as int,
            uploaded_segments@,
        ),
{
    let mut r: Vec<ObjectCopy> = Vec::new();
    let mut segno: u64 = from_segment;
    assert(copy_models(r@) =~= Seq::empty());
    while segno < to_segment
        invariant
            0 < wal_seg_size <= 0x1_0000_0000,
            from_segment <= segno,
            segno <= to_segment || segno == from_segment,
            copy_models(r@) == copies(
                wal_seg_size as int,
                src_path@,
                dst_path@,
                from_segment,
                segno as int,
                uploaded_segments@,
            ),
        decreases to_segment - segno,
    {
        let segment_name = xlog_file_name(segno, wal_seg_size);
        if !listed(uploaded_segments, &segment_name) {
            let from = paths::path_join(src_path, segment_name.as_str());
            let to = paths::path_join(dst_path, segment_name.as_str());
            let ghost before = copy_models(r@);
            r.push(ObjectCopy { from, to });
            assert(copy_models(r@) =~= before.push((from@, to@)));
        }
        segno += 1;
    }
    r
}

/// The path of a timeline in the remote storage: the tenant, then the timeline.
pub fn remote_timeline_path(tenant_id: &str, timeline_id: &str) -> (r: String)
    ensures
        r@ == paths::joined_path(tenant_id@, timeline_id@),
{
    paths::path_join(tenant_id, timeline_id)
}

/// A copy that was interrupted can be done again: once all planned objects are there, none
/// is left to copy.
pub proof fn a_repeated_copy_is_empty(
    size: int,
    src_path: Seq<char>,
    dst_path: Seq<char>,
    from_segment: u64,
    to_segment: int,
    uploaded: Seq<String>,
)
    requires
        to_segment <= u64::MAX,
        forall|s: u64|
            from_segment <= s < to_segment ==> is_listed(
                uploaded,
                #[trigger] segment_name(s, size),
            ),
    ensures
        copies(size, src_path, dst_path, from_segment, to_segment, uploaded).len() == 0,
    decreases to_segment - from_segment,
{
    if to_segment > from_segment {
        assert(is_listed(uploaded, segment_name((to_segment - 1) as u64, size)));
        a_repeated_copy_is_empty(
            size,
            src_path,
            dst_path,
            from_segment,
            to_segment - 1,
            uploaded,
        );
    }
}

/// Timelines are ordered by tenant, then by timeline.
pub proof fn timelines_are_ordered_by_tenant_first(a: TenantTimelineId, b: TenantTimelineId)
    ensures
        a.rank() < b.rank() <==> a.tenant_id.0 < b.tenant_id.0 || (a.tenant_id.0 == b.tenant_id.0
            && a.timeline_id.0 < b.timeline_id.0),
{
}

/// The segments to back up are exactly the whole ones from the one that the start is in up to,
/// not including, the one that the end is in, each with the positions where it begins and ends.
pub proof fn whole_segments_are_backed_up(start: Lsn, end: Lsn, size: int, seg: Segment)
    requires
        size > 0,
    ensures
        segments_between(start, end, size).contains(seg) <==> {
            &&& start.0 as int / size <= seg.seg_no < end.0 as int / size
            &&& seg.start_lsn.0 == seg.seg_no * size
            &&& seg.end_lsn.0 == (seg.seg_no + 1) * size
        },
{
    let all = segments_between(start, end, size);
    let first = start.0 as int / size;
    let last = end.0 as int / size;
    assert(0 <= first && 0 <= last && last <= end.0 as int) by (nonlinear_arith)
        requires
            first == start.0 as int / size,
            last == end.0 as int / size,
            size > 0,
            0 <= start.0 as int,
            0 <= end.0 as int,
    ;
    if all.contains(seg) {
        let i = all.index_of(seg);
        lemma_segment_fits(first + i, last, end.0 as int, size);
    }
    if first <= seg.seg_no < last && seg.start_lsn.0 == seg.seg_no * size && seg.end_lsn.0 == (
    seg.seg_no + 1) * size {
        assert(all[seg.seg_no - first] == seg);
    }
}

/// A segment is named by eight hexadecimal digits each for the timeline, for the number of the
/// four gigabytes that it is in, and for its number within them.
pub proof fn names_count_within_four_gigabytes(size: int, high: u64, low: u64, seg_no: u64)
    requires
        0 < size <= 0x1_0000_0000,
        low < 0x1_0000_0000int / size,
        seg_no == high * (0x1_0000_0000int / size) + low,
    ensures
        segment_name(seg_no, size) == text::hex(1, 8) + text::hex(high as nat, 8) + text::hex(
            low as nat,
            8,
        ),
{
    vstd::arithmetic::div_mod::lemma_fundamental_div_mod_converse(
        seg_no as int,
        0x1_0000_0000int / size,
        high as int,
        low as int,
    );
}

/// After a failure an upload waits for ten milliseconds, doubled with each attempt, and never
/// for more than five seconds.
pub proof fn delays_are_powers_of_two(attempt: u32)
    ensures
        attempt <= 8 ==> retry_delay_of(attempt) == 10 * vstd::arithmetic::power2::pow2(
            attempt as nat,
        ),
        9 <= attempt && attempt != 63 ==> retry_delay_of(attempt) == 5000,
        retry_delay_of(attempt) <= 5000,
        retry_delay_of(63) == 0,
{
    vstd::arithmetic::power2::lemma2_to64();
    assert(10u64 << 0u64 == 10 && 10u64 << 1u64 == 20 && 10u64 << 2u64 == 40 && 10u64 << 3u64 == 80
        && 10u64 << 4u64 == 160 && 10u64 << 5u64 == 320 && 10u64 << 6u64 == 640 && 10u64 << 7u64
        == 1280 && 10u64 << 8u64 == 2560 && 10u64 << 63u64 == 0) by (bit_vector);
    if attempt >= 9 && attempt != 63 {
        delays_double_up_to_the_limit(attempt);
    }
    assert(attempt == 0 || attempt == 1 || attempt == 2 || attempt == 3 || attempt == 4 || attempt
        == 5 || attempt == 6 || attempt == 7 || attempt == 8 || attempt >= 9);
}

/// There is nothing to back up exactly where no whole segment lies between the two positions.
pub proof fn backups_are_done_without_whole_segments(
    task: WalBackupTask,
    backup_lsn: Lsn,
    commit_lsn: Lsn,
)
    requires
        task.wal_seg_size > 0,
    ensures
        task.is_done(backup_lsn, commit_lsn) <==> segments_between(
            backup_lsn,
            commit_lsn,
            task.wal_seg_size as int,
        ).len() == 0,
        commit_lsn.0 <= backup_lsn.0 ==> task.is_done(backup_lsn, commit_lsn),
        backup_lsn.0 + task.wal_seg_size <= commit_lsn.0 ==> !task.is_done(backup_lsn, commit_lsn),
{
    let size = task.wal_seg_size as int;
    let a = backup_lsn.0 as int;
    let b = commit_lsn.0 as int;
    if b <= a {
        assert(b / size <= a / size) by (nonlinear_arith)
            requires
                0 <= b <= a,
                size > 0,
        ;
    }
    if a + size <= b {
        assert(a / size < b / size) by (nonlinear_arith)
            requires
                0 <= a,
                a + size <= b,
                size > 0,
        ;
    }
}

/// A segment of the range is copied exactly where its name is not among those uploaded already:
/// from its place under the source to the same name under the destination.
pub proof fn missing_segments_are_copied(
    size: int,
    src_path: Seq<char>,
    dst_path: Seq<char>,
    from_segment: u64,
    to_segment: int,
    uploaded: Seq<String>,
    copy: (Seq<char>, Seq<char>),
)
    requires
        to_segment <= u64::MAX,
    ensures
        copies(size, src_path, dst_path, from_segment, to_segment, uploaded).contains(copy)
            <==> exists|s: u64|
            from_segment <= s < to_segment && (forall|k: int|
                0 <= k < uploaded.len() ==> (#[trigger] uploaded[k])@ != segment_name(s, size))
                && copy == (
                paths::joined_path(src_path, #[trigger] segment_name(s, size)),
                paths::joined_path(dst_path, segment_name(s, size)),
            ),
    decreases to_segment - from_segment,
{
    let all = copies(size, src_path, dst_path, from_segment, to_segment, uploaded);
    if to_segment > from_segment {
        let front = copies(size, src_path, dst_path, from_segment, to_segment - 1, uploaded);
        missing_segments_are_copied(
            size,
            src_path,
            dst_path,
            from_segment,
            to_segment - 1,
            uploaded,
            copy,
        );
        let last = (to_segment - 1) as u64;
        let name = segment_name(last, size);
        if front.contains(copy) {
            let k = front.index_of(copy);
            assert(all[k] == copy);
        }
        if !is_listed(uploaded, name) {
            assert(all.last() == (
                paths::joined_path(src_path, name),
                paths::joined_path(dst_path, name),
            ));
            assert(all[all.len() - 1] == all.last());
            if all.contains(copy) && !front.contains(copy) {
                let k = all.index_of(copy);
                if k < front.len() {
                    assert(front[k] == copy);
                }
                assert(copy == all.last());
                assert(from_segment <= last < to_segment);
            }
        }
        if exists|s: u64|
            from_segment <= s < to_segment && (forall|k: int|
                0 <= k < uploaded.len() ==> (#[trigger] uploaded[k])@ != segment_name(s, size))
                && copy == (
                paths::joined_path(src_path, #[trigger] segment_name(s, size)),
                paths::joined_path(dst_path, segment_name(s, size)),
            ) {
            let s = choose|s: u64|
                from_segment <= s < to_segment && (forall|k: int|
                    0 <= k < uploaded.len() ==> (#[trigger] uploaded[k])@ != segment_name(s, size))
                    && copy == (
                    paths::joined_path(src_path, #[trigger] segment_name(s, size)),
                    paths::joined_path(dst_path, segment_name(s, size)),
                );
            if s == last {
                assert(!is_listed(uploaded, name));
            } else {
                assert(s < to_segment - 1);
            }
        }
    }
}

} // verus!
