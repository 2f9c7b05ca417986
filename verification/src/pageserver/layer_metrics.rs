//! Counters of what happens to layers.
use vstd::prelude::*;

use crate::base::metric_desc;
use crate::base::metric_desc::DescModel;
use crate::base::metric_desc::MetricDesc;
use crate::pageserver::layer::DeleteFailed;
use crate::pageserver::layer::EvictionCancelled;
use crate::pageserver::layer::RareEvent;

verus! {

impl EvictionCancelled {
    pub open spec fn position(self) -> int {
        match self {
            EvictionCancelled::LayerGone => 0,
            EvictionCancelled::TimelineGone => 1,
            EvictionCancelled::VersionCheckFailed => 2,
            EvictionCancelled::FileNotFound => 3,
            EvictionCancelled::RemoveFailed => 4,
            EvictionCancelled::AlreadyReinitialized => 5,
            EvictionCancelled::LostToDownload => 6,
            EvictionCancelled::UpgradedBackOnAccess => 7,
        }
    }

    /// Where the counter of this value stands among the counters of its kind.
    pub fn index(&self) -> (r: usize)
        ensures
            r == self.position(),
            r < 8,
    {
        match self {
            EvictionCancelled::LayerGone => 0,
            EvictionCancelled::TimelineGone => 1,
            EvictionCancelled::VersionCheckFailed => 2,
            EvictionCancelled::FileNotFound => 3,
            EvictionCancelled::RemoveFailed => 4,
            EvictionCancelled::AlreadyReinitialized => 5,
            EvictionCancelled::LostToDownload => 6,
            EvictionCancelled::UpgradedBackOnAccess => 7,
        }
    }

    /// The value whose counter stands at an index.
    pub fn from_usize(i: usize) -> (r: Option<EvictionCancelled>)
        ensures
            match r {
                Some(v) => v.position() == i,
                None => i >= 8,
            },
    {
        match i {
            0 => Some(EvictionCancelled::LayerGone),
            1 => Some(EvictionCancelled::TimelineGone),
            2 => Some(EvictionCancelled::VersionCheckFailed),
            3 => Some(EvictionCancelled::FileNotFound),
            4 => Some(EvictionCancelled::RemoveFailed),
            5 => Some(EvictionCancelled::AlreadyReinitialized),
            6 => Some(EvictionCancelled::LostToDownload),
            7 => Some(EvictionCancelled::UpgradedBackOnAccess),
            _ => None,
        }
    }
}

impl DeleteFailed {
    pub open spec fn position(self) -> int {
        match self {
            DeleteFailed::TimelineGone => 0,
            DeleteFailed::DeleteSchedulingFailed => 1,
        }
    }

    /// Where the counter of this value stands among the counters of its kind.
    pub fn index(&self) -> (r: usize)
        ensures
            r == self.position(),
            r < 2,
    {
        match self {
            DeleteFailed::TimelineGone => 0,
            DeleteFailed::DeleteSchedulingFailed => 1,
        }
    }

    /// The value whose counter stands at an index.
    pub fn from_usize(i: usize) -> (r: Option<DeleteFailed>)
        ensures
            match r {
                Some(v) => v.position() == i,
                None => i >= 2,
            },
    {
        match i {
            0 => Some(DeleteFailed::TimelineGone),
            1 => Some(DeleteFailed::DeleteSchedulingFailed),
            _ => None,
        }
    }
}

impl RareEvent {
    pub open spec fn position(self) -> int {
        match self {
            RareEvent::RemoveOnDropFailed => 0,
            RareEvent::RetriedGetOrMaybeDownload => 1,
            RareEvent::DownloadFailedWithoutRequester => 2,
            RareEvent::UpgradedWantedEvicted => 3,
            RareEvent::InitWithoutDownload => 4,
            RareEvent::PermanentLoadingFailure => 5,
            RareEvent::EvictAndWaitLagged => 6,
        }
    }

    /// Where the counter of this value stands among the counters of its kind.
    pub fn index(&self) -> (r: usize)
        ensures
            r == self.position(),
            r < 7,
    {
        match self {
            RareEvent::RemoveOnDropFailed => 0,
            RareEvent::RetriedGetOrMaybeDownload => 1,
            RareEvent::DownloadFailedWithoutRequester => 2,
            RareEvent::UpgradedWantedEvicted => 3,
            RareEvent::InitWithoutDownload => 4,
            RareEvent::PermanentLoadingFailure => 5,
            RareEvent::EvictAndWaitLagged => 6,
        }
    }

    /// The value whose counter stands at an index.
    pub fn from_usize(i: usize) -> (r: Option<RareEvent>)
        ensures
            match r {
                Some(v) => v.position() == i,
                None => i >= 7,
            },
    {
        match i {
            0 => Some(RareEvent::RemoveOnDropFailed),
            1 => Some(RareEvent::RetriedGetOrMaybeDownload),
            2 => Some(RareEvent::DownloadFailedWithoutRequester),
            3 => Some(RareEvent::UpgradedWantedEvicted),
            4 => Some(RareEvent::InitWithoutDownload),
            5 => Some(RareEvent::PermanentLoadingFailure),
            6 => Some(RareEvent::EvictAndWaitLagged),
            _ => None,
        }
    }
}

/// A counter that is one higher; the highest is followed by zero.
pub open spec fn counted(n: u64) -> u64 {
    if n == u64::MAX {
        0
    } else {
        (n + 1) as u64
    }
}

/// Counts up the counter at an index.
fn count_up(counters: &mut Vec<u64>, i: usize)
    requires
        i < old(counters)@.len(),
    ensures
        final(counters)@ == old(counters)@.update(i as int, counted(old(counters)@[i as int])),
{
    let n = counters[i];
    counters.set(i, n.wrapping_add(1));
}

/// As many counters at zero.
fn zeros(n: usize) -> (r: Vec<u64>)
    ensures
        r@ == Seq::new(n as nat, |i: int| 0u64),
{
    let mut r: Vec<u64> = Vec::new();
    let mut i: usize = 0;
    while i < n
        invariant
            i <= n,
            r@ == Seq::new(i as nat, |j: int| 0u64),
        decreases n - i,
    {
        r.push(0);
        i += 1;
        assert(r@ =~= Seq::new(i as nat, |j: int| 0u64));
    }
    r
}

/// The counters.
pub struct LayerImplMetrics {
    pub started_evictions: u64,
    pub completed_evictions: u64,
    pub cancelled_evictions: Vec<u64>,
    pub started_deletes: u64,
    pub completed_deletes: u64,
    pub failed_deletes: Vec<u64>,
    pub rare_counters: Vec<u64>,
    pub inits_cancelled: u64,
}

impl LayerImplMetrics {
    /// There is a counter for each value of each kind.
    pub open spec fn wf(self) -> bool {
        &&& self.cancelled_evictions@.len() == 8
        &&& self.failed_deletes@.len() == 2
        &&& self.rare_counters@.len() == 7
    }

    /// All counters at zero.
    pub fn new() -> (r: LayerImplMetrics)
        ensures
            r.wf(),
            r.started_evictions == 0,
            r.completed_evictions == 0,
            r.started_deletes == 0,
            r.completed_deletes == 0,
            r.inits_cancelled == 0,
            r.cancelled_evictions@ == Seq::new(8, |i: int| 0u64),
            r.failed_deletes@ == Seq::new(2, |i: int| 0u64),
            r.rare_counters@ == Seq::new(7, |i: int| 0u64),
    {
        LayerImplMetrics {
            started_evictions: 0,
            completed_evictions: 0,
            cancelled_evictions: zeros(8),
            started_deletes: 0,
            completed_deletes: 0,
            failed_deletes: zeros(2),
            rare_counters: zeros(7),
            inits_cancelled: 0,
        }
    }

    /// Counts an eviction that was begun.
    pub fn inc_started_evictions(&mut self)
        ensures
            *final(self) == (LayerImplMetrics {
                started_evictions: counted(old(self).started_evictions),
                ..*old(self)
            }),
    {
        self.started_evictions = self.started_evictions.wrapping_add(1);
    }

    /// Counts an eviction that was completed.
    pub fn inc_completed_evictions(&mut self)
        ensures
            *final(self) == (LayerImplMetrics {
                completed_evictions: counted(old(self).completed_evictions),
                ..*old(self)
            }),
    {
        self.completed_evictions = self.completed_evictions.wrapping_add(1);
    }

    /// Counts a deletion that was wished.
    pub fn inc_started_deletes(&mut self)
        ensures
            *final(self) == (LayerImplMetrics {
                started_deletes: counted(old(self).started_deletes),
                ..*old(self)
            }),
    {
        self.started_deletes = self.started_deletes.wrapping_add(1);
    }

    /// Counts a deletion that was completed.
    pub fn inc_completed_deletes(&mut self)
        ensures
            *final(self) == (LayerImplMetrics {
                completed_deletes: counted(old(self).completed_deletes),
                ..*old(self)
            }),
    {
        self.completed_deletes = self.completed_deletes.wrapping_add(1);
    }

    /// Counts an initialization that was given up.
    pub fn inc_init_cancelled(&mut self)
        ensures
            *final(self) == (LayerImplMetrics {
                inits_cancelled: counted(old(self).inits_cancelled),
                ..*old(self)
            }),
    {
        self.inits_cancelled = self.inits_cancelled.wrapping_add(1);
    }

    /// Counts an eviction that was not carried out.
    pub fn inc_eviction_cancelled(&mut self, reason: EvictionCancelled)
        requires
            old(self).wf(),
        ensures
            final(self).wf(),
            final(self).cancelled_evictions@ == old(self).cancelled_evictions@.update(
                reason.position(),
                counted(old(self).cancelled_evictions@[reason.position()]),
            ),
            final(self).failed_deletes == old(self).failed_deletes,
            final(self).rare_counters == old(self).rare_counters,
            final(self).started_evictions == old(self).started_evictions,
            final(self).completed_evictions == old(self).completed_evictions,
            final(self).started_deletes == old(self).started_deletes,
            final(self).completed_deletes == old(self).completed_deletes,
            final(self).inits_cancelled == old(self).inits_cancelled,
    {
        count_up(&mut self.cancelled_evictions, reason.index());
    }

    /// Counts a deletion that failed.
    pub fn inc_deletes_failed(&mut self, reason: DeleteFailed)
        requires
            old(self).wf(),
        ensures
            final(self).wf(),
            final(self).failed_deletes@ == old(self).failed_deletes@.update(
                reason.position(),
                counted(old(self).failed_deletes@[reason.position()]),
            ),
            final(self).cancelled_evictions == old(self).cancelled_evictions,
            final(self).rare_counters == old(self).rare_counters,
            final(self).started_evictions == old(self).started_evictions,
            final(self).completed_evictions == old(self).completed_evictions,
            final(self).started_deletes == old(self).started_deletes,
            final(self).completed_deletes == old(self).completed_deletes,
            final(self).inits_cancelled == old(self).inits_cancelled,
    {
        count_up(&mut self.failed_deletes, reason.index());
    }

    /// Counts a rare event.
    pub fn inc_rare_event(&mut self, event: RareEvent)
        requires
            old(self).wf(),
        ensures
            final(self).wf(),
            final(self).rare_counters@ == old(self).rare_counters@.update(
                event.position(),
                counted(old(self).rare_counters@[event.position()]),
            ),
            final(self).cancelled_evictions == old(self).cancelled_evictions,
            final(self).failed_deletes == old(self).failed_deletes,
            final(self).started_evictions == old(self).started_evictions,
            final(self).completed_evictions == old(self).completed_evictions,
            final(self).started_deletes == old(self).started_deletes,
            final(self).completed_deletes == old(self).completed_deletes,
            final(self).inits_cancelled == old(self).inits_cancelled,
    {
        count_up(&mut self.rare_counters, event.index());
    }
}

/// The descriptions of the metrics of layers.
pub open spec fn layer_metric_models() -> Seq<DescModel> {
    seq![
        DescModel {
            name: "pageserver_layer_started_evictions"@,
            help: "Evictions started in the Layer implementation"@,
            labels: Seq::empty(),
        },
        DescModel {
            name: "pageserver_layer_completed_evictions"@,
            help: "Evictions completed in the Layer implementation"@,
            labels: Seq::empty(),
        },
        DescModel {
            name: "pageserver_layer_cancelled_evictions_count"@,
            help: "Different reasons for evictions to have been cancelled or failed"@,
            labels: seq!["reason"@],
        },
        DescModel {
            name: "pageserver_layer_started_deletes"@,
            help: "Deletions on drop pending in the Layer implementation"@,
            labels: Seq::empty(),
        },
        DescModel {
            name: "pageserver_layer_completed_deletes"@,
            help: "Deletions on drop completed in the Layer implementation"@,
            labels: Seq::empty(),
        },
        DescModel {
            name: "pageserver_layer_failed_deletes_count"@,
            help: "Different reasons for deletions on drop to have failed"@,
            labels: seq!["reason"@],
        },
        DescModel {
            name: "pageserver_layer_assumed_rare_count"@,
            help: "Times unexpected or assumed rare event happened"@,
            labels: seq!["event"@],
        },
        DescModel {
            name: "pageserver_layer_inits_cancelled_count"@,
            help: "Times Layer initialization was cancelled"@,
            labels: Seq::empty(),
        },
        DescModel {
            name: "pageserver_layer_redownloaded_after"@,
            help: "Time between evicting and re-downloading."@,
            labels: Seq::empty(),
        },
    ]
}

/// The descriptions of the metrics of layers.  The last one is a histogram, the others are
/// counters.
pub fn layer_metric_descs() -> (r: Vec<MetricDesc>)
    ensures
        metric_desc::desc_models(r@) == layer_metric_models(),
{
    let mut r: Vec<MetricDesc> = Vec::new();
    r.push(MetricDesc::plain("pageserver_layer_started_evictions", "Evictions started in the Layer implementation"));
    r.push(MetricDesc::plain("pageserver_layer_completed_evictions", "Evictions completed in the Layer implementation"));
    r.push(
        MetricDesc::labelled(
            "pageserver_layer_cancelled_evictions_count",
            "Different reasons for evictions to have been cancelled or failed",
            "reason",
        ),
    );
    r.push(MetricDesc::plain("pageserver_layer_started_deletes", "Deletions on drop pending in the Layer implementation"));
    r.push(MetricDesc::plain("pageserver_layer_completed_deletes", "Deletions on drop completed in the Layer implementation"));
    r.push(
        MetricDesc::labelled(
            "pageserver_layer_failed_deletes_count",
            "Different reasons for deletions on drop to have failed",
            "reason",
        ),
    );
    r.push(
        MetricDesc::labelled(
            "pageserver_layer_assumed_rare_count",
            "Times unexpected or assumed rare event happened",
            "event",
        ),
    );
    r.push(MetricDesc::plain("pageserver_layer_inits_cancelled_count", "Times Layer initialization was cancelled"));
    r.push(MetricDesc::plain("pageserver_layer_redownloaded_after", "Time between evicting and re-downloading."));
    assert(metric_desc::desc_models(r@) =~= layer_metric_models());
    r
}

/// Upper bounds, in seconds, of the buckets of the time between evicting and downloading
/// again.
pub fn redownload_buckets() -> (r: Vec<u64>)
    ensures
        r@ == seq![10u64, 30, 60, 300, 900, 1800, 3600, 43200],
{
    let r: Vec<u64> = vec![10, 30, 60, 300, 900, 1800, 3600, 43200];
    assert(r@ =~= seq![10u64, 30, 60, 300, 900, 1800, 3600, 43200]);
    r
}

/// Each value of a kind has a counter of its own.
pub proof fn counters_are_distinct(a: EvictionCancelled, b: EvictionCancelled, c: RareEvent, d: RareEvent)
    ensures
        a.position() == b.position() ==> a == b,
        c.position() == d.position() ==> c == d,
{
}

/// Counters are counted up by one and begin again at zero when they are full.
pub proof fn counters_wrap_around(n: u64)
    ensures
        n < u64::MAX ==> counted(n) == n + 1,
        counted(u64::MAX) == 0,
{
}

/// The reasons for failed deletions have counters of their own, and every counter is there.
pub proof fn counters_are_within_their_vectors(
    a: EvictionCancelled,
    b: DeleteFailed,
    c: RareEvent,
    d: DeleteFailed,
)
    ensures
        0 <= a.position() < 8,
        0 <= b.position() < 2,
        0 <= c.position() < 7,
        b.position() == d.position() ==> b == d,
{
}

} // verus!
