//! Background loops of a tenant, such as compaction and garbage collection.
//!
//! Times and periods are in nanoseconds.
use vstd::prelude::*;

use crate::base::random;
use crate::pageserver::tenant_map::TenantState;

verus! {

/// One second.
pub const SECOND: u128 = 1000000000;

/// How long a loop that is switched off waits before it looks at its settings again.
pub const DISABLED_RECHECK: u128 = 10000000000;

/// The longest period that can be configured: the longest span of time that std knows.
pub const MAX_PERIOD: u128 = 18446744073709551615999999999;

/// How many background tasks may run at a time: three quarters of the worker threads, and
/// at least one.  Threads must be left for shorter work.
pub fn background_permits(total_threads: usize) -> (r: usize)
    requires
        2 <= total_threads,
        total_threads * 3 <= usize::MAX,
    ensures
        r == if total_threads * 3 / 4 > 1 {
            total_threads * 3 / 4
        } else {
            1
        },
        0 < r < total_threads,
{
    let share = total_threads * 3 / 4;
    if share > 1 {
        share
    } else {
        1
    }
}

/// The background loops.
#[derive(Clone, Copy, Debug, PartialEq, Eq, Structural)]
pub enum BackgroundLoopKind {
    Compaction,
    Gc,
    Eviction,
    ConsumptionMetricsCollectMetrics,
    ConsumptionMetricsSyntheticSizeWorker,
    InitialLogicalSizeCalculation,
    HeatmapUpload,
    SecondaryDownload,
}

impl BackgroundLoopKind {
    pub open spec fn label(self) -> Seq<char> {
        match self {
            BackgroundLoopKind::Compaction => "compaction"@,
            BackgroundLoopKind::Gc => "gc"@,
            BackgroundLoopKind::Eviction => "eviction"@,
            BackgroundLoopKind::ConsumptionMetricsCollectMetrics =>
                "consumption_metrics_collect_metrics"@,
            BackgroundLoopKind::ConsumptionMetricsSyntheticSizeWorker =>
                "consumption_metrics_synthetic_size_worker"@,
            BackgroundLoopKind::InitialLogicalSizeCalculation =>
                "initial_logical_size_calculation"@,
            BackgroundLoopKind::HeatmapUpload => "heatmap_upload"@,
            BackgroundLoopKind::SecondaryDownload => "secondary_download"@,
        }
    }

    /// The metric label.
    pub fn as_static_str(&self) -> (r: &'static str)
        ensures
            r@ == self.label(),
    {
        match self {
            BackgroundLoopKind::Compaction => "compaction",
            BackgroundLoopKind::Gc => "gc",
            BackgroundLoopKind::Eviction => "eviction",
            BackgroundLoopKind::ConsumptionMetricsCollectMetrics =>
                "consumption_metrics_collect_metrics",
            BackgroundLoopKind::ConsumptionMetricsSyntheticSizeWorker =>
                "consumption_metrics_synthetic_size_worker",
            BackgroundLoopKind::InitialLogicalSizeCalculation => "initial_logical_size_calculation",
            BackgroundLoopKind::HeatmapUpload => "heatmap_upload",
            BackgroundLoopKind::SecondaryDownload => "secondary_download",
        }
    }
}

/// How an iteration of a loop has gone.
#[derive(Clone, Copy, Debug, PartialEq, Eq, Structural)]
pub enum IterationEnd {
    /// The loop is switched off.
    Disabled,
    Done,
    Failed,
}

/// How long a loop sleeps.
#[derive(Clone, Copy, Debug, PartialEq, Eq, Structural)]
pub enum Sleep {
    For { nanos: u128 },
    /// As long as the exponential back-off for this many failures in a row.
    BackOff { failures: u32 },
}

/// A background loop between its iterations.
#[derive(Clone, Copy, Debug, PartialEq, Eq, Structural)]
pub struct BackgroundLoop {
    /// Failures in a row.
    pub error_run_count: u32,
    /// Whether no iteration has begun yet.
    pub first: bool,
}

impl BackgroundLoop {
    /// A loop that has not begun.
    pub fn new() -> (r: BackgroundLoop)
        ensures
            r == (BackgroundLoop { error_run_count: 0, first: true }),
    {
        BackgroundLoop { error_run_count: 0, first: true }
    }

    /// Begins an iteration.  Says whether the loop is to wait for a random time first, which
    /// keeps the loops of many tenants apart.
    pub fn begin(&mut self) -> (r: bool)
        ensures
            r == old(self).first,
            *final(self) == (BackgroundLoop { first: false, ..*old(self) }),
    {
        let first = self.first;
        self.first = false;
        first
    }

    /// Takes the end of an iteration into account.
    pub fn end(&mut self, end: IterationEnd, period: u128) -> (r: Sleep)
        requires
            old(self).error_run_count < u32::MAX,
        ensures
            r == match end {
                IterationEnd::Disabled => Sleep::For { nanos: DISABLED_RECHECK },
                IterationEnd::Done => Sleep::For { nanos: period },
                IterationEnd::Failed => Sleep::BackOff {
                    failures: (old(self).error_run_count + 1) as u32,
                },
            },
            *final(self) == (BackgroundLoop {
                error_run_count: match end {
                    IterationEnd::Disabled => old(self).error_run_count,
                    IterationEnd::Done => 0,
                    IterationEnd::Failed => (old(self).error_run_count + 1) as u32,
                },
                ..*old(self)
            }),
    {
        match end {
            IterationEnd::Disabled => Sleep::For { nanos: DISABLED_RECHECK },
            IterationEnd::Done => {
                self.error_run_count = 0;
                Sleep::For { nanos: period }
            },
            IterationEnd::Failed => {
                self.error_run_count = self.error_run_count + 1;
                Sleep::BackOff { failures: self.error_run_count }
            },
        }
    }
}

/// Whether compaction is switched on.
pub fn compaction_enabled(period: u128) -> (r: bool)
    ensures
        r == (period != 0),
{
    period != 0
}

/// Whether garbage collection is switched on.
pub fn gc_enabled(period: u128, gc_horizon: u64) -> (r: bool)
    ensures
        r == (period != 0 && gc_horizon != 0),
{
    !(period == 0 || gc_horizon == 0)
}

/// How long the process that replays WAL may be idle between compactions.
pub fn quiesce_after(period: u128) -> (r: u128)
    requires
        period * 10 <= MAX_PERIOD,
    ensures
        r == period * 10,
{
    period * 10
}

/// How a failed compaction is logged.
#[derive(Clone, Copy, Debug, PartialEq, Eq, Structural)]
pub enum LooksLike {
    Info,
    Error,
}

/// Why a compaction failed.
#[derive(Clone, Copy, Debug, PartialEq, Eq, Structural)]
pub enum CompactionError {
    ShuttingDown,
    /// Another cause; `is_stopping` says that the upload queue or the timeline was stopping.
    Other { is_stopping: bool },
}

/// Decides how a failed compaction is logged: a shutdown not at all, and what comes with one
/// only as information.
pub fn compaction_error_level(e: CompactionError, task_cancelled: bool) -> (r: Option<LooksLike>)
    ensures
        r == match e {
            CompactionError::ShuttingDown => None,
            CompactionError::Other { is_stopping } => if task_cancelled || is_stopping {
                Some(LooksLike::Info)
            } else {
                Some(LooksLike::Error)
            },
        },
{
    match e {
        CompactionError::ShuttingDown => None,
        CompactionError::Other { is_stopping } => {
            if task_cancelled {
                Some(LooksLike::Info)
            } else if is_stopping {
                Some(LooksLike::Info)
            } else {
                Some(LooksLike::Error)
            }
        },
    }
}

/// What is heard of a tenant that a loop waits for.
pub enum StateUpdate {
    State(TenantState),
    /// The tenant is gone.
    SenderDropped,
}

/// What a loop that waits for its tenant does.
#[derive(Clone, Copy, Debug, PartialEq, Eq, Structural)]
pub enum LoopControl {
    Run,
    Wait,
    Stop,
}

/// A loop runs only while its tenant is active, and ends when the tenant is gone.
pub fn on_state_update(update: &StateUpdate) -> (r: LoopControl)
    ensures
        r == match *update {
            StateUpdate::State(TenantState::Active) => LoopControl::Run,
            StateUpdate::State(_) => LoopControl::Wait,
            StateUpdate::SenderDropped => LoopControl::Stop,
        },
{
    match update {
        StateUpdate::State(TenantState::Active) => LoopControl::Run,
        StateUpdate::State(_) => LoopControl::Wait,
        StateUpdate::SenderDropped => LoopControl::Stop,
    }
}

/// A random time, up to the period, to wait before the first iteration; none for a loop that
/// is switched off.
pub fn random_init_delay(period: u128) -> (r: Option<u128>)
    ensures
        r is None <==> period == 0,
        r matches Some(d) ==> d <= period,
{
    if period == 0 {
        None
    } else {
        Some(random::random_up_to(period))
    }
}

/// Whether an iteration took at least the period of its loop.  A period of zero stands for a
/// loop that is switched off.
#[verifier::allow_in_spec]
pub fn period_overrun(elapsed: u128, period: u128) -> bool
    returns
        (elapsed >= period && period != 0),
{
    elapsed >= period && period != 0
}

/// A period in whole seconds, as it is shown in metrics.
pub fn period_seconds(period: u128) -> (r: u64)
    requires
        period <= MAX_PERIOD,
    ensures
        r == period / SECOND,
{
    (period / SECOND) as u64
}

/// The labels under which background loops are counted.
pub proof fn loop_labels()
    ensures
        BackgroundLoopKind::Compaction.label() == "compaction"@,
        BackgroundLoopKind::Gc.label() == "gc"@,
        BackgroundLoopKind::Eviction.label() == "eviction"@,
        BackgroundLoopKind::ConsumptionMetricsCollectMetrics.label()
            == "consumption_metrics_collect_metrics"@,
        BackgroundLoopKind::ConsumptionMetricsSyntheticSizeWorker.label()
            == "consumption_metrics_synthetic_size_worker"@,
        BackgroundLoopKind::InitialLogicalSizeCalculation.label()
            == "initial_logical_size_calculation"@,
        BackgroundLoopKind::HeatmapUpload.label() == "heatmap_upload"@,
        BackgroundLoopKind::SecondaryDownload.label() == "secondary_download"@,
{
}

} // verus!
