//! Eviction of layers that have not been accessed for a while.
//!
//! Times and periods are in nanoseconds.
use vstd::prelude::*;

use crate::pageserver::ids::TenantShardId;
use crate::pageserver::layer::EvictionError;
use crate::pageserver::tasks;

verus! {

/// What the eviction task of a timeline remembers.
#[derive(Clone, Copy, Debug, PartialEq, Eq, Structural)]
pub struct EvictionTaskTimelineState {
    /// When the accesses of the timeline were last imitated.
    pub last_layer_access_imitation: Option<u128>,
}

/// What the eviction tasks of a tenant share.
#[derive(Clone, Copy, Debug, PartialEq, Eq, Structural)]
pub struct EvictionTaskTenantState {
    /// When the accesses for the size of the tenant were last imitated.
    pub last_layer_access_imitation: Option<u128>,
}

impl Default for EvictionTaskTimelineState {
    fn default() -> (r: EvictionTaskTimelineState)
        ensures
            r.last_layer_access_imitation is None,
    {
        EvictionTaskTimelineState { last_layer_access_imitation: None }
    }
}

impl Default for EvictionTaskTenantState {
    fn default() -> (r: EvictionTaskTenantState)
        ensures
            r.last_layer_access_imitation is None,
    {
        EvictionTaskTenantState { last_layer_access_imitation: None }
    }
}

impl EvictionTaskTimelineState {
    /// The accesses of the timeline have been imitated.
    pub fn imitated(&mut self, now: u128)
        ensures
            final(self).last_layer_access_imitation == Some(now),
    {
        self.last_layer_access_imitation = Some(now);
    }
}

impl EvictionTaskTenantState {
    /// The accesses for the size of the tenant have been imitated.
    pub fn imitated(&mut self, now: u128)
        ensures
            final(self).last_layer_access_imitation == Some(now),
    {
        self.last_layer_access_imitation = Some(now);
    }
}

/// When layers are evicted.
#[derive(Clone, Copy, Debug, PartialEq, Eq, Structural)]
pub enum EvictionPolicy {
    NoEviction,
    /// Layers that have not been accessed for the threshold are evicted.
    LayerAccessThreshold { period: u128, threshold: u128 },
    /// Accesses are imitated, but another task evicts.
    OnlyImitiate { period: u128, threshold: u128 },
}

/// The period of the eviction loop.
pub open spec fn policy_period(policy: EvictionPolicy) -> u128 {
    match policy {
        EvictionPolicy::LayerAccessThreshold { period, .. } => period,
        EvictionPolicy::OnlyImitiate { period, .. } => period,
        EvictionPolicy::NoEviction => tasks::DISABLED_RECHECK,
    }
}

/// The period of the eviction loop; ten seconds where nothing is evicted, to look at the
/// policy again.
pub fn eviction_period(policy: &EvictionPolicy) -> (r: u128)
    ensures
        r == policy_period(*policy),
{
    match policy {
        EvictionPolicy::LayerAccessThreshold { period, threshold: _ } => *period,
        EvictionPolicy::OnlyImitiate { period, threshold: _ } => *period,
        EvictionPolicy::NoEviction => tasks::DISABLED_RECHECK,
    }
}

/// When the next iteration begins: one period after this one began.
pub fn next_iteration(policy: &EvictionPolicy, start: u128) -> (r: u128)
    requires
        start + policy_period(*policy) <= u128::MAX,
    ensures
        r == start + policy_period(*policy),
{
    start + eviction_period(policy)
}

/// What is known of a layer when candidates are picked.
#[derive(Clone, Copy, Debug, PartialEq, Eq, Structural)]
pub struct LayerActivity {
    pub resident: bool,
    /// When the layer was last accessed.
    pub last_activity: u128,
}

/// Whether a layer is to be evicted.  A layer that was accessed after `now` was read is not.
pub open spec fn is_candidate(layer: LayerActivity, now: u128, threshold: u128) -> bool {
    layer.resident && layer.last_activity <= now && now - layer.last_activity > threshold
}

/// The indexes of the layers that are to be evicted.
pub open spec fn candidates_of(layers: Seq<LayerActivity>, now: u128, threshold: u128) -> Seq<usize>
    decreases layers.len(),
{
    if layers.len() == 0 {
        Seq::empty()
    } else {
        let front = candidates_of(layers.drop_last(), now, threshold);
        if is_candidate(layers.last(), now, threshold) {
            front.push((layers.len() - 1) as usize)
        } else {
            front
        }
    }
}

/// Picks the layers that are to be evicted.
pub fn pick_candidates(layers: &Vec<LayerActivity>, now: u128, threshold: u128) -> (r: Vec<usize>)
    ensures
        r@ == candidates_of(layers@, now, threshold),
        forall|i: usize|
            #[trigger] r@.contains(i) <==> i < layers@.len() && layers@[i as int].resident
                && layers@[i as int].last_activity + threshold < now,
{
    let mut r: Vec<usize> = Vec::new();
    let mut i: usize = 0;
    assert(layers@.take(0).len() == 0);
    while i < layers.len()
        invariant
            i <= layers@.len(),
            r@ == candidates_of(layers@.take(i as int), now, threshold),
        decreases layers@.len() - i,
    {
        assert(layers@.take(i + 1).drop_last() =~= layers@.take(i as int));
        let layer = layers[i];
        if layer.resident {
            match now.checked_sub(layer.last_activity) {
                Some(no_activity_for) => {
                    if no_activity_for > threshold {
                        r.push(i);
                    }
                },
                None => {},
            }
        }
        i += 1;
    }
    assert(layers@.take(i as int) =~= layers@);
    assert forall|i: usize| #[trigger] r@.contains(i) <==> i < layers@.len()
        && layers@[i as int].resident && layers@[i as int].last_activity + threshold < now by {
        idle_layers_are_picked(layers@, now, threshold, i);
    }
    r
}

/// Picks the layers that an iteration evicts: none where there is no remote storage, from which
/// a layer could be had again.
pub fn layers_to_evict(
    layers: &Vec<LayerActivity>,
    now: u128,
    threshold: u128,
    remote_storage: bool,
) -> (r: Vec<usize>)
    ensures
        r@ == if remote_storage {
            candidates_of(layers@, now, threshold)
        } else {
            Seq::empty()
        },
        forall|i: usize|
            #[trigger] r@.contains(i) <==> remote_storage && i < layers@.len()
                && layers@[i as int].resident && layers@[i as int].last_activity + threshold < now,
{
    if !remote_storage {
        return Vec::new();
    }
    pick_candidates(layers, now, threshold)
}

/// How an eviction that was asked for has ended.
#[derive(Clone, Copy, Debug, PartialEq, Eq, Structural)]
pub enum EvictionEnd {
    Evicted,
    NotEvictable(EvictionError),
    Panicked,
    Unknown,
}

/// What an iteration has brought about.
#[derive(Clone, Copy, Debug, PartialEq, Eq, Structural)]
pub struct EvictionStats {
    pub candidates: usize,
    pub evicted: usize,
    pub errors: usize,
    pub not_evictable: usize,
}

/// How an iteration is logged.
#[derive(Clone, Copy, Debug, PartialEq, Eq, Structural)]
pub enum StatsLevel {
    Debug,
    Info,
    Warn,
}

impl EvictionStats {
    /// No more evictions have ended than there were candidates.
    pub open spec fn wf(self) -> bool {
        self.evicted + self.errors + self.not_evictable <= self.candidates
    }

    /// An iteration with this many candidates.
    pub fn new(candidates: usize) -> (r: EvictionStats)
        ensures
            r == (EvictionStats { candidates, evicted: 0, errors: 0, not_evictable: 0 }),
            r.wf(),
    {
        EvictionStats { candidates, evicted: 0, errors: 0, not_evictable: 0 }
    }

    /// Counts the end of an eviction.
    pub fn count(&mut self, end: EvictionEnd)
        requires
            old(self).wf(),
            old(self).evicted + old(self).errors + old(self).not_evictable < old(self).candidates,
        ensures
            final(self).wf(),
            *final(self) == match end {
                EvictionEnd::Evicted => EvictionStats {
                    evicted: (old(self).evicted + 1) as usize,
                    ..*old(self)
                },
                EvictionEnd::NotEvictable(_) => EvictionStats {
                    not_evictable: (old(self).not_evictable + 1) as usize,
                    ..*old(self)
                },
                EvictionEnd::Panicked => EvictionStats {
                    errors: (old(self).errors + 1) as usize,
                    ..*old(self)
                },
                EvictionEnd::Unknown => *old(self),
            },
    {
        match end {
            EvictionEnd::Evicted => {
                self.evicted = self.evicted + 1;
            },
            EvictionEnd::NotEvictable(_) => {
                self.not_evictable = self.not_evictable + 1;
            },
            EvictionEnd::Panicked => {
                self.errors = self.errors + 1;
            },
            EvictionEnd::Unknown => {},
        }
    }

    /// How the iteration is logged: quietly where nothing could be evicted, with a warning
    /// where something could not.
    pub fn level(&self) -> (r: StatsLevel)
        ensures
            r == if self.candidates == self.not_evictable {
                StatsLevel::Debug
            } else if self.errors > 0 || self.not_evictable > 0 {
                StatsLevel::Warn
            } else {
                StatsLevel::Info
            },
    {
        if self.candidates == self.not_evictable {
            StatsLevel::Debug
        } else if self.errors > 0 || self.not_evictable > 0 {
            StatsLevel::Warn
        } else {
            StatsLevel::Info
        }
    }
}

/// How much time is left between two imitations of accesses: a little less than the
/// threshold, so that they do not race with evictions.
pub open spec fn imitation_period(period: u128, threshold: u128) -> u128 {
    if threshold >= period {
        (threshold - period) as u128
    } else {
        threshold
    }
}

/// How much time is left between two imitations of accesses.
pub fn inter_imitate_period(period: u128, threshold: u128) -> (r: u128)
    ensures
        r == imitation_period(period, threshold),
{
    match threshold.checked_sub(period) {
        Some(rest) => rest,
        None => threshold,
    }
}

/// Whether accesses have to be imitated: they never were, or enough time has gone by.
pub open spec fn imitation_due(last: Option<u128>, now: u128, inter: u128) -> bool {
    match last {
        Some(ts) => now - ts >= inter || inter == 0,
        None => true,
    }
}

/// Whether accesses have to be imitated.
pub fn is_imitation_due(last: Option<u128>, now: u128, inter: u128) -> (r: bool)
    ensures
        r == imitation_due(last, now, inter),
{
    match last {
        Some(ts) => !(now.saturating_sub(ts) < inter),
        None => true,
    }
}

/// A stage of imitating accesses.
#[derive(Clone, Copy, Debug, PartialEq, Eq, Structural)]
pub enum ImitateStage {
    /// The accesses of the timeline.
    Timeline { run: bool },
    /// The accesses for the size of the tenant.  They are only made where `calculate` says so,
    /// but noted wherever it is their turn.
    Tenant { run: bool, calculate: bool },
    /// The iteration goes on.
    Done,
    /// The eviction task ends.
    Break,
}

/// The first stage.  Only shard zero keeps the sizes that are imitated.
pub fn imitate_timeline(
    id: &TenantShardId,
    state: &EvictionTaskTimelineState,
    now: u128,
    inter: u128,
) -> (r: ImitateStage)
    ensures
        r == if id.shard_number.0 != 0 {
            ImitateStage::Done
        } else {
            ImitateStage::Timeline {
                run: imitation_due(state.last_layer_access_imitation, now, inter),
            }
        },
{
    if id.shard_number.0 != 0 {
        return ImitateStage::Done;
    }
    ImitateStage::Timeline { run: is_imitation_due(state.last_layer_access_imitation, now, inter) }
}

/// The second stage.  `tenant` is what the tasks of the tenant share, where the tenant is
/// active.  The size is only calculated elsewhere, so that there are accesses to imitate, where
/// `metrics_endpoint` says that consumption metrics are sent.
pub fn imitate_tenant(
    cancelled: bool,
    tenant: Option<&EvictionTaskTenantState>,
    metrics_endpoint: bool,
    now: u128,
    inter: u128,
) -> (r: ImitateStage)
    ensures
        r == if cancelled {
            ImitateStage::Break
        } else {
            match tenant {
                None => ImitateStage::Break,
                Some(state) => ImitateStage::Tenant {
                    run: imitation_due(state.last_layer_access_imitation, now, inter),
                    calculate: metrics_endpoint && imitation_due(
                        state.last_layer_access_imitation,
                        now,
                        inter,
                    ),
                },
            }
        },
{
    if cancelled {
        return ImitateStage::Break;
    }
    match tenant {
        None => ImitateStage::Break,
        Some(state) => {
            let run = is_imitation_due(state.last_layer_access_imitation, now, inter);
            ImitateStage::Tenant { run, calculate: metrics_endpoint && run }
        },
    }
}

/// The end of imitating accesses.
pub fn imitate_end(cancelled: bool) -> (r: ImitateStage)
    ensures
        r == if cancelled {
            ImitateStage::Break
        } else {
            ImitateStage::Done
        },
{
    if cancelled {
        ImitateStage::Break
    } else {
        ImitateStage::Done
    }
}

/// Whether a failure to collect the key space is worth a warning: not where the logical size
/// failed too, and not at shutdown.
pub fn keyspace_failure_is_news(size_ok: bool, cancelled: bool) -> (r: bool)
    ensures
        r == (size_ok && !cancelled),
{
    size_ok && !cancelled
}

/// A layer is a candidate exactly if its index was picked.
pub proof fn candidates_are_the_idle_layers(
    layers: Seq<LayerActivity>,
    now: u128,
    threshold: u128,
    i: usize,
)
    requires
        layers.len() <= usize::MAX,
    ensures
        candidates_of(layers, now, threshold).contains(i) <==> i < layers.len() && is_candidate(
            layers[i as int],
            now,
            threshold,
        ),
    decreases layers.len(),
{
    if layers.len() > 0 {
        let front = layers.drop_last();
        candidates_are_the_idle_layers(front, now, threshold, i);
        let picked = candidates_of(layers, now, threshold);
        let picked_front = candidates_of(front, now, threshold);
        let n = (layers.len() - 1) as usize;
        if picked_front.contains(i) {
            let k = picked_front.index_of(i);
            assert(picked[k] == i);
        }
        if is_candidate(layers.last(), now, threshold) {
            assert(picked[picked.len() - 1] == n);
            if picked.contains(i) && i != n {
                let k = picked.index_of(i);
                assert(picked_front[k] == i);
            }
        }
        if i < n {
            assert(front[i as int] == layers[i as int]);
        }
    }
}

/// Accesses that have just been imitated are not imitated again before the period is over.
pub proof fn imitations_are_spaced(at: u128, now: u128, period: u128, threshold: u128)
    requires
        at <= now,
        now - at < imitation_period(period, threshold),
    ensures
        !imitation_due(Some(at), now, imitation_period(period, threshold)),
        imitation_period(period, threshold) <= threshold,
{
}

/// A layer that has been accessed within the threshold is never evicted.
pub proof fn recent_layers_stay(layer: LayerActivity, now: u128, threshold: u128)
    requires
        layer.last_activity + threshold >= now,
    ensures
        !is_candidate(layer, now, threshold),
{
}

/// A layer is picked if and only if it is resident and more than the threshold has gone by
/// since it was last accessed.
pub proof fn idle_layers_are_picked(
    layers: Seq<LayerActivity>,
    now: u128,
    threshold: u128,
    i: usize,
)
    requires
        layers.len() <= usize::MAX,
    ensures
        candidates_of(layers, now, threshold).contains(i) <==> i < layers.len()
            && layers[i as int].resident && layers[i as int].last_activity + threshold < now,
{
    candidates_are_the_idle_layers(layers, now, threshold, i);
}

/// The picked layers come in the order in which they stand in the layer map, each once.
pub proof fn candidates_ascend(layers: Seq<LayerActivity>, now: u128, threshold: u128)
    requires
        layers.len() <= usize::MAX,
    ensures
        forall|a: int, b: int|
            0 <= a < b < candidates_of(layers, now, threshold).len() ==> candidates_of(
                layers,
                now,
                threshold,
            )[a] < candidates_of(layers, now, threshold)[b],
        forall|a: int|
            0 <= a < candidates_of(layers, now, threshold).len() ==> candidates_of(
                layers,
                now,
                threshold,
            )[a] < layers.len(),
    decreases layers.len(),
{
    if layers.len() > 0 {
        candidates_ascend(layers.drop_last(), now, threshold);
        let front = candidates_of(layers.drop_last(), now, threshold);
        let all = candidates_of(layers, now, threshold);
        assert forall|a: int, b: int| 0 <= a < b < all.len() implies all[a] < all[b] by {
            assert(all[a] == front[a]);
            if b < front.len() {
                assert(all[b] == front[b]);
            }
        }
        assert forall|a: int| 0 <= a < all.len() implies all[a] < layers.len() by {
            if a < front.len() {
                assert(all[a] == front[a]);
            }
        }
    }
}

/// A layer that is picked is picked at every later time and for every shorter threshold too,
/// as long as it is not accessed.
pub proof fn idle_layers_stay_candidates(
    layers: Seq<LayerActivity>,
    now: u128,
    threshold: u128,
    later: u128,
    shorter: u128,
    i: usize,
)
    requires
        layers.len() <= usize::MAX,
        now <= later,
        shorter <= threshold,
        candidates_of(layers, now, threshold).contains(i),
    ensures
        candidates_of(layers, later, shorter).contains(i),
{
    candidates_are_the_idle_layers(layers, now, threshold, i);
    candidates_are_the_idle_layers(layers, later, shorter, i);
}

/// An access takes a layer out of the candidates until the threshold has gone by again, and
/// changes nothing for the other layers.
pub proof fn an_access_spares_only_its_layer(
    layers: Seq<LayerActivity>,
    now: u128,
    threshold: u128,
    accessed: int,
    at: u128,
    i: usize,
)
    requires
        layers.len() <= usize::MAX,
        0 <= accessed < layers.len(),
        at <= now <= at + threshold,
    ensures
        ({
            let after = layers.update(
                accessed,
                LayerActivity { resident: layers[accessed].resident, last_activity: at },
            );
            candidates_of(after, now, threshold).contains(i) <==> i != accessed && candidates_of(
                layers,
                now,
                threshold,
            ).contains(i)
        }),
{
    let after = layers.update(
        accessed,
        LayerActivity { resident: layers[accessed].resident, last_activity: at },
    );
    candidates_are_the_idle_layers(layers, now, threshold, i);
    candidates_are_the_idle_layers(after, now, threshold, i);
}

/// Accesses are imitated if and only if they never were or at least the interval has gone by
/// since, so that an imitation that is due stays due until it is made.
pub proof fn imitations_come_due(last: Option<u128>, now: u128, inter: u128)
    ensures
        last is None ==> imitation_due(last, now, inter),
        last matches Some(at) ==> at <= now ==> (imitation_due(last, now, inter) <==> at + inter
            <= now),
        last matches Some(at) ==> now < at ==> (imitation_due(last, now, inter) <==> inter == 0),
{
}

/// The interval between imitations ends one period before the threshold, so that accesses are
/// imitated before the layers that they touch become candidates; where the period is the longer
/// one it is the threshold itself.
pub proof fn imitations_precede_evictions(period: u128, threshold: u128)
    ensures
        period <= threshold ==> imitation_period(period, threshold) + period == threshold,
        threshold < period ==> imitation_period(period, threshold) == threshold,
{
}

/// The eviction loop runs with the period of its policy, whether it evicts or only imitates,
/// and looks every ten seconds whether eviction was switched on.
pub proof fn policies_set_the_pace(period: u128, threshold: u128)
    ensures
        policy_period(EvictionPolicy::LayerAccessThreshold { period, threshold }) == period,
        policy_period(EvictionPolicy::OnlyImitiate { period, threshold }) == period,
        policy_period(EvictionPolicy::NoEviction) == 10_000_000_000,
{
}

} // verus!
