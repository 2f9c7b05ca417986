//! Uploads of heatmaps: when each tenant's is due, and whether it has changed.
//!
//! Times and periods are in nanoseconds.
use vstd::prelude::*;

use crate::base::ordered_map::OrderedMap;
use crate::base::random;
use crate::pageserver::ids::Generation;
use crate::pageserver::ids::TenantShardId;
use crate::pageserver::tasks;
use crate::pageserver::tenant_manager;
use crate::pageserver::tenant_manager::GetTenantError;
use crate::pageserver::tenant_map::AttachmentMode;
use crate::pageserver::tenant_map::TenantsMap;

verus! {

/// The MD5 digest of some bytes, as one number.
pub uninterp spec fn md5_digest(bytes: Seq<u8>) -> u128;

/// `md5::compute`: the digest of the bytes, its sixteen bytes read as one big-endian number.
#[verifier::external_body]
fn md5_compute(bytes: &[u8]) -> (r: u128)
    ensures
        r == md5_digest(bytes@),
{
    u128::from_be_bytes(md5::compute(bytes).0)
}

/// What is kept of a tenant between uploads.
#[derive(Clone, Copy, Debug, PartialEq, Eq, Structural)]
pub struct UploaderTenantState {
    /// Whether the tenant is still in memory.
    pub alive: bool,
    /// Digest of the heatmap that was last uploaded.
    pub last_digest: Option<u128>,
    /// When the last attempt was completed.
    pub last_upload: Option<u128>,
    /// When the next upload is due; never where there is no time.
    pub next_upload: Option<u128>,
}

/// An active tenant, as the scheduler sees it.
#[derive(Clone, Copy, Debug, PartialEq, Eq, Structural)]
pub struct TenantInfo {
    pub id: TenantShardId,
    /// The time between two uploads; none where they are switched off.
    pub period: Option<u128>,
    pub attach_mode: AttachmentMode,
}

/// An upload that is due.
#[derive(Clone, Copy, Debug, PartialEq, Eq, Structural)]
pub struct UploadPending {
    pub tenant: TenantShardId,
    pub last_digest: Option<u128>,
    pub target_time: Option<u128>,
    pub period: Option<u128>,
}

/// The uploads that are due, and the shortest period that was asked for.
pub struct SchedulingResult {
    pub jobs: Vec<UploadPending>,
    pub want_interval: Option<u128>,
}

/// An upload that was attempted.
#[derive(Clone, Copy, Debug, PartialEq, Eq, Structural)]
pub struct WriteComplete {
    pub tenant_shard_id: TenantShardId,
    pub completed_at: u128,
    pub digest: Option<u128>,
    pub next_upload: Option<u128>,
}

/// The state of the uploader.
pub struct HeatmapUploader {
    pub tenants: OrderedMap<TenantShardId, UploaderTenantState>,
}

/// What scheduling has come to: the states, the jobs and the interval.
pub struct ScheduleModel {
    pub states: Map<TenantShardId, UploaderTenantState>,
    pub jobs: Seq<UploadPending>,
    pub want_interval: Option<u128>,
}

/// The shorter of a period and those before it.
pub open spec fn shorter(interval: Option<u128>, period: u128) -> Option<u128> {
    match interval {
        None => Some(period),
        Some(existing) => if existing < period {
            Some(existing)
        } else {
            Some(period)
        },
    }
}

/// The state of a tenant that is seen for the first time: its first upload comes after a part
/// of its period.
pub open spec fn fresh_state(now: u128, jitter: u128) -> UploaderTenantState {
    UploaderTenantState {
        alive: true,
        last_digest: None,
        last_upload: None,
        next_upload: if now + jitter <= u128::MAX {
            Some((now + jitter) as u128)
        } else {
            Some(now)
        },
    }
}

/// Scheduling one more tenant.
pub open spec fn scheduled_one(
    before: ScheduleModel,
    tenant: TenantInfo,
    now: u128,
    jitter: u128,
) -> ScheduleModel {
    match tenant.period {
        None => before,
        Some(period) => {
            let want_interval = shorter(before.want_interval, period);
            if tenant.attach_mode == AttachmentMode::Stale {
                ScheduleModel { want_interval, ..before }
            } else {
                let states = if before.states.dom().contains(tenant.id) {
                    before.states
                } else {
                    before.states.insert(tenant.id, fresh_state(now, jitter))
                };
                let state = states[tenant.id];
                let due = match state.next_upload {
                    Some(at) => at <= now,
                    None => true,
                };
                ScheduleModel {
                    states,
                    want_interval,
                    jobs: if due {
                        before.jobs.push(
                            UploadPending {
                                tenant: tenant.id,
                                last_digest: state.last_digest,
                                target_time: state.next_upload,
                                period: Some(period),
                            },
                        )
                    } else {
                        before.jobs
                    },
                }
            }
        },
    }
}

/// Scheduling a list of tenants, with a part of its period for each.
pub open spec fn scheduled_all(
    before: ScheduleModel,
    tenants: Seq<TenantInfo>,
    now: u128,
    jitters: Seq<u128>,
) -> ScheduleModel
    decreases tenants.len(),
{
    if tenants.len() == 0 {
        before
    } else {
        scheduled_one(
            scheduled_all(before, tenants.drop_last(), now, jitters),
            tenants.last(),
            now,
            jitters[tenants.len() - 1],
        )
    }
}

/// Whether a state is kept between rounds: its tenant is there, and an upload is due some day.
pub open spec fn is_kept(state: UploaderTenantState) -> bool {
    state.alive && state.next_upload is Some
}

/// Whether it can be said when the first upload of a tenant comes: there is a part of its
/// period to wait for, or its state is known, or it does not upload at all.
pub open spec fn has_first_upload(
    states: Map<TenantShardId, UploaderTenantState>,
    tenant: TenantInfo,
) -> bool {
    ||| tenant.period != Some(0u128)
    ||| tenant.attach_mode == AttachmentMode::Stale
    ||| states.dom().contains(tenant.id) && is_kept(states[tenant.id])
}

impl HeatmapUploader {
    /// The states are in order.
    pub open spec fn wf(self) -> bool {
        self.tenants.wf()
    }

    /// An uploader that has seen no tenant.
    pub fn new() -> (r: HeatmapUploader)
        ensures
            r.wf(),
            r.tenants@ == Map::<TenantShardId, UploaderTenantState>::empty(),
    {
        HeatmapUploader { tenants: OrderedMap::new() }
    }

    /// Notes that a tenant is no longer in memory.
    pub fn tenant_gone(&mut self, id: TenantShardId)
        requires
            old(self).wf(),
        ensures
            final(self).wf(),
            final(self).tenants@ == if old(self).tenants@.dom().contains(id) {
                old(self).tenants@.insert(
                    id,
                    UploaderTenantState { alive: false, ..old(self).tenants@[id] },
                )
            } else {
                old(self).tenants@
            },
    {
        let found = match self.tenants.get(&id) {
            Some(state) => Some(*state),
            None => None,
        };
        if let Some(state) = found {
            self.tenants.insert(id, UploaderTenantState { alive: false, ..state });
        }
    }

    /// Forgets the tenants that are gone or never upload again.
    pub fn cull(&mut self)
        requires
            old(self).wf(),
        ensures
            final(self).wf(),
            forall|id: TenantShardId|
                #![trigger final(self).tenants@.dom().contains(id)]
                final(self).tenants@.dom().contains(id) == (old(self).tenants@.dom().contains(id)
                    && is_kept(old(self).tenants@[id])) && (final(self).tenants@.dom().contains(id)
                    ==> final(self).tenants@[id] == old(self).tenants@[id]),
    {
        let ghost before = self.tenants;
        let mut i: usize = 0;
        let mut kept: OrderedMap<TenantShardId, UploaderTenantState> = OrderedMap::new();
        while i < self.tenants.entries.len()
            invariant
                self.tenants == before,
                before.wf(),
                kept.wf(),
                i <= before.entries@.len(),
                forall|id: TenantShardId|
                    #![trigger kept@.dom().contains(id)]
                    kept@.dom().contains(id) == (before@.dom().contains(id)
                        && crate::base::ordered_map::key_index(before.entries@, id) < i && is_kept(
                        before@[id],
                    )) && (kept@.dom().contains(id) ==> kept@[id] == before@[id]),
            decreases before.entries@.len() - i,
        {
            let (id, state) = self.tenants.entries[i];
            let ghost kept_before = kept@;
            proof {
                before.lemma_entry(i as int);
            }
            if state.alive && state.next_upload.is_some() {
                kept.insert(id, state);
            }
            proof {
                assert(kept@ == if is_kept(state) {
                    kept_before.insert(id, state)
                } else {
                    kept_before
                });
                assert forall|k: TenantShardId|
                    #![trigger kept@.dom().contains(k)]
                    kept@.dom().contains(k) == (before@.dom().contains(k)
                        && crate::base::ordered_map::key_index(before.entries@, k) < i + 1
                        && is_kept(before@[k])) && (kept@.dom().contains(k) ==> kept@[k]
                        == before@[k]) by {
                    assert(kept_before.dom().contains(k) == (before@.dom().contains(k)
                        && crate::base::ordered_map::key_index(before.entries@, k) < i && is_kept(
                        before@[k],
                    )));
                    if before@.dom().contains(k) && crate::base::ordered_map::key_index(
                        before.entries@,
                        k,
                    ) == i {
                        assert(before.entries@[i as int].0 == k);
                    }
                }
            }
            i += 1;
        }
        proof {
            assert forall|id: TenantShardId|
                #![trigger kept@.dom().contains(id)]
                kept@.dom().contains(id) == (before@.dom().contains(id) && is_kept(before@[id])) by {
                if before@.dom().contains(id) {
                    let j = crate::base::ordered_map::key_index(before.entries@, id);
                    assert(before.entries@[j].0 == id);
                }
            }
        }
        self.tenants = kept;
    }

    /// The state and the result so far, as a mathematical value.
    pub open spec fn model(self, result: SchedulingResult) -> ScheduleModel {
        ScheduleModel {
            states: self.tenants@,
            jobs: result.jobs@,
            want_interval: result.want_interval,
        }
    }

    /// Schedules one tenant; `jitter` is the part of its period after which the first upload
    /// of a new tenant comes.
    pub fn schedule_tenant(
        &mut self,
        tenant: &TenantInfo,
        now: u128,
        jitter: u128,
        result: &mut SchedulingResult,
    )
        requires
            old(self).wf(),
        ensures
            final(self).wf(),
            final(self).model(*final(result)) == scheduled_one(
                old(self).model(*old(result)),
                *tenant,
                now,
                jitter,
            ),
    {
        let period = match tenant.period {
            None => {
                return;
            },
            Some(period) => period,
        };
        result.want_interval = match result.want_interval {
            None => Some(period),
            Some(existing) => {
                if existing < period {
                    Some(existing)
                } else {
                    Some(period)
                }
            },
        };
        if tenant.attach_mode == AttachmentMode::Stale {
            return;
        }
        let found = match self.tenants.get(&tenant.id) {
            Some(state) => Some(*state),
            None => None,
        };
        let state = match found {
            Some(state) => state,
            None => {
                let first = match now.checked_add(jitter) {
                    Some(at) => at,
                    None => now,
                };
                let state = UploaderTenantState {
                    alive: true,
                    last_digest: None,
                    last_upload: None,
                    next_upload: Some(first),
                };
                self.tenants.insert(tenant.id, state);
                state
            },
        };
        let too_early = match state.next_upload {
            Some(at) => at > now,
            None => false,
        };
        if too_early {
            return;
        }
        result.jobs.push(
            UploadPending {
                tenant: tenant.id,
                last_digest: state.last_digest,
                target_time: state.next_upload,
                period: Some(period),
            },
        );
    }

    /// Schedules the active tenants.  The first upload of a new tenant comes after a random
    /// part of its period.
    pub fn schedule(&mut self, tenants: &Vec<TenantInfo>, now: u128) -> (r: SchedulingResult)
        requires
            old(self).wf(),
            forall|i: int|
                0 <= i < tenants@.len() ==> has_first_upload(
                    old(self).tenants@,
                    #[trigger] tenants@[i],
                ),
        ensures
            final(self).wf(),
            exists|states: Map<TenantShardId, UploaderTenantState>, jitters: Seq<u128>|
                {
                    &&& culled(old(self).tenants@, states)
                    &&& jitters.len() == tenants@.len()
                    &&& forall|i: int|
                        0 <= i < jitters.len() ==> (tenants@[i].period matches Some(p)
                            ==> #[trigger] jitters[i] < p || p == 0)
                    &&& final(self).model(r) == #[trigger] scheduled_all(
                        ScheduleModel { states, jobs: Seq::empty(), want_interval: None },
                        tenants@,
                        now,
                        jitters,
                    )
                },
    {
        self.cull();
        let ghost states = self.tenants@;
        let mut result = SchedulingResult { jobs: Vec::new(), want_interval: None };
        let ghost start = ScheduleModel { states, jobs: Seq::empty(), want_interval: None };
        let ghost mut jitters: Seq<u128> = Seq::empty();
        assert(self.model(result).jobs =~= start.jobs);
        let mut i: usize = 0;
        assert(tenants@.take(0).len() == 0);
        while i < tenants.len()
            invariant
                self.wf(),
                i <= tenants@.len(),
                jitters.len() == i,
                forall|k: int|
                    0 <= k < i ==> (tenants@[k].period matches Some(p) ==> #[trigger] jitters[k]
                        < p || p == 0),
                self.model(result) == scheduled_all(start, tenants@.take(i as int), now, jitters),
            decreases tenants@.len() - i,
        {
            let tenant = tenants[i];
            let jitter = match tenant.period {
                Some(period) => {
                    if period == 0 {
                        0
                    } else {
                        random::random_below(period)
                    }
                },
                None => 0,
            };
            let ghost before = jitters;
            self.schedule_tenant(&tenant, now, jitter, &mut result);
            proof {
                jitters = jitters.push(jitter);
                lemma_jitters_prefix(start, tenants@.take(i as int), now, before, jitters);
                assert(tenants@.take(i + 1).drop_last() =~= tenants@.take(i as int));
                assert forall|k: int| 0 <= k < i + 1 implies (tenants@[k].period matches Some(p)
                    ==> #[trigger] jitters[k] < p || p == 0) by {
                    if k < i {
                        assert(jitters[k] == before[k]);
                    }
                }
            }
            i += 1;
        }
        assert(tenants@.take(i as int) =~= tenants@);
        assert(culled(old(self).tenants@, states));
        result
    }

    /// An upload that was asked for: it is made even if nothing has changed.  The tenant must
    /// be active.
    pub fn on_command(tenants: &TenantsMap, id: TenantShardId) -> (r: Result<
        UploadPending,
        GetTenantError,
    >)
        requires
            tenants.wf(),
        ensures
            r == match tenant_manager::lookup(*tenants, id, true) {
                Ok(_) => Ok(
                    UploadPending { tenant: id, last_digest: None, target_time: None, period: None },
                ),
                Err(e) => Err(e),
            },
    {
        match tenant_manager::get_tenant(tenants, id, true) {
            Ok(_) => Ok(
                UploadPending { tenant: id, last_digest: None, target_time: None, period: None },
            ),
            Err(e) => Err(e),
        }
    }

    /// Notes an attempt that was completed, unless its tenant has been forgotten.
    pub fn on_completion(&mut self, completion: WriteComplete)
        requires
            old(self).wf(),
        ensures
            final(self).wf(),
            final(self).tenants@ == if old(self).tenants@.dom().contains(
                completion.tenant_shard_id,
            ) {
                old(self).tenants@.insert(
                    completion.tenant_shard_id,
                    UploaderTenantState {
                        last_upload: Some(completion.completed_at),
                        last_digest: completion.digest,
                        next_upload: completion.next_upload,
                        ..old(self).tenants@[completion.tenant_shard_id]
                    },
                )
            } else {
                old(self).tenants@
            },
    {
        let found = match self.tenants.get(&completion.tenant_shard_id) {
            Some(state) => Some(*state),
            None => None,
        };
        if let Some(state) = found {
            self.tenants.insert(
                completion.tenant_shard_id,
                UploaderTenantState {
                    last_upload: Some(completion.completed_at),
                    last_digest: completion.digest,
                    next_upload: completion.next_upload,
                    ..state
                },
            );
        }
    }
}

/// One map of states is another without those that are not kept.
pub open spec fn culled(
    before: Map<TenantShardId, UploaderTenantState>,
    after: Map<TenantShardId, UploaderTenantState>,
) -> bool {
    forall|id: TenantShardId|
        #![trigger after.dom().contains(id)]
        after.dom().contains(id) == (before.dom().contains(id) && is_kept(before[id])) && (
        after.dom().contains(id) ==> after[id] == before[id])
}

/// Only the parts for the tenants that are scheduled matter.
proof fn lemma_jitters_prefix(
    start: ScheduleModel,
    tenants: Seq<TenantInfo>,
    now: u128,
    a: Seq<u128>,
    b: Seq<u128>,
)
    requires
        tenants.len() <= a.len(),
        tenants.len() <= b.len(),
        forall|i: int| 0 <= i < tenants.len() ==> a[i] == b[i],
    ensures
        scheduled_all(start, tenants, now, a) == scheduled_all(start, tenants, now, b),
    decreases tenants.len(),
{
    if tenants.len() > 0 {
        lemma_jitters_prefix(start, tenants.drop_last(), now, a, b);
    }
}

/// What becomes of an upload.
#[derive(Clone, Copy, Debug, PartialEq, Eq, Structural)]
pub enum UploadHeatmapOutcome {
    /// The heatmap with this digest was written to remote storage.
    Uploaded(u128),
    /// The heatmap has not changed since the last upload.
    NoChange,
    /// The tenant or a timeline was not ready.
    Skipped,
}

/// Why an upload failed.
#[derive(Clone, Copy, Debug, PartialEq, Eq, Structural)]
pub enum UploadHeatmapError {
    Cancelled,
    Upload,
}

/// A heatmap: the generation of its tenant, and what is hot in each of the timelines.
pub struct HeatMapTenant<T> {
    pub generation: Generation,
    pub timelines: Vec<T>,
}

/// What is hot in timelines, where every one of them is ready.
pub open spec fn all_ready<T>(timelines: Seq<Option<T>>) -> bool {
    forall|i: int| 0 <= i < timelines.len() ==> (#[trigger] timelines[i]) is Some
}

/// Makes the heatmap of a tenant.  It is skipped where the tenant has no generation or a timeline
/// is not ready, and given up where the tenant is shutting down.
pub fn gather_heatmap<T>(generation: Generation, gate_open: bool, timelines: Vec<Option<T>>) -> (r:
    Result<Option<HeatMapTenant<T>>, UploadHeatmapError>)
    ensures
        if generation == Generation::Unset {
            r == Ok::<Option<HeatMapTenant<T>>, UploadHeatmapError>(None)
        } else if !gate_open {
            r == Err::<Option<HeatMapTenant<T>>, UploadHeatmapError>(UploadHeatmapError::Cancelled)
        } else if !all_ready(timelines@) {
            r == Ok::<Option<HeatMapTenant<T>>, UploadHeatmapError>(None)
        } else {
            &&& r matches Ok(Some(heatmap))
            &&& heatmap.generation == generation
            &&& heatmap.timelines@ == Seq::new(timelines@.len(), |i: int| timelines@[i]->0)
        },
{
    if generation.is_none() {
        return Ok(None);
    }
    if !gate_open {
        return Err(UploadHeatmapError::Cancelled);
    }
    let ghost all = timelines@;
    let mut rest = timelines;
    let mut gathered: Vec<T> = Vec::new();
    while rest.len() > 0
        invariant
            all == timelines@,
            generation != Generation::Unset,
            gate_open,
            gathered@.len() + rest@.len() == all.len(),
            rest@ == all.skip(gathered@.len() as int),
            forall|i: int| 0 <= i < gathered@.len() ==> all[i] == Some(#[trigger] gathered@[i]),
        decreases rest@.len(),
    {
        let ghost n = gathered@.len() as int;
        match rest.remove(0) {
            Some(timeline) => {
                gathered.push(timeline);
                assert(rest@ =~= all.skip(n + 1));
            },
            None => {
                assert(all[n] is None);
                return Ok(None);
            },
        }
    }
    assert(all_ready(all)) by {
        assert forall|i: int| 0 <= i < all.len() implies (#[trigger] all[i]) is Some by {
            assert(all[i] == Some(gathered@[i]));
        }
    }
    assert(gathered@ =~= Seq::new(all.len(), |i: int| all[i]->0)) by {
        assert forall|i: int| 0 <= i < all.len() implies gathered@[i] == all[i]->0 by {
            assert(all[i] == Some(gathered@[i]));
        }
    }
    Ok(Some(HeatMapTenant { generation, timelines: gathered }))
}

/// The digest of a heatmap that is to be uploaded; nothing where it is that of the last one.
pub open spec fn digest_to_upload(digest: u128, last_digest: Option<u128>) -> Option<u128> {
    if last_digest == Some(digest) {
        None
    } else {
        Some(digest)
    }
}

/// Compares a heatmap with the one that was last uploaded: its digest where it is to be
/// uploaded, nothing where it has not changed.
pub fn changed_digest(heatmap: &[u8], last_digest: Option<u128>) -> (r: Option<u128>)
    ensures
        r == digest_to_upload(md5_digest(heatmap@), last_digest),
{
    upload_needed(md5_compute(heatmap), last_digest)
}

/// The digest of a heatmap that is to be uploaded; nothing where it is that of the last one.
pub fn upload_needed(digest: u128, last_digest: Option<u128>) -> (r: Option<u128>)
    ensures
        r == digest_to_upload(digest, last_digest),
{
    match last_digest {
        Some(last) => {
            if last == digest {
                None
            } else {
                Some(digest)
            }
        },
        None => Some(digest),
    }
}

/// What an attempt to write a heatmap with this digest comes to.
pub fn write_outcome(digest: u128, written: bool, cancelled: bool) -> (r: Result<
    UploadHeatmapOutcome,
    UploadHeatmapError,
>)
    ensures
        r == if written {
            Ok(UploadHeatmapOutcome::Uploaded(digest))
        } else if cancelled {
            Err(UploadHeatmapError::Cancelled)
        } else {
            Err(UploadHeatmapError::Upload)
        },
{
    if written {
        Ok(UploadHeatmapOutcome::Uploaded(digest))
    } else if cancelled {
        Err(UploadHeatmapError::Cancelled)
    } else {
        Err(UploadHeatmapError::Upload)
    }
}

/// The digest to remember after an attempt.
pub open spec fn digest_after(
    outcome: Result<UploadHeatmapOutcome, UploadHeatmapError>,
    last_digest: Option<u128>,
) -> Option<u128> {
    match outcome {
        Ok(UploadHeatmapOutcome::Uploaded(digest)) => Some(digest),
        _ => last_digest,
    }
}

/// Sums an attempt up.  Only a heatmap that was uploaded changes the digest; the next upload
/// is due one period later, and never where uploads have been switched off.  Says also
/// whether the upload was late by its period or more.
pub fn complete(
    job: &UploadPending,
    outcome: Result<UploadHeatmapOutcome, UploadHeatmapError>,
    now: u128,
    period: Option<u128>,
) -> (r: (WriteComplete, bool))
    ensures
        r.0 == (WriteComplete {
            tenant_shard_id: job.tenant,
            completed_at: now,
            digest: digest_after(outcome, job.last_digest),
            next_upload: match period {
                Some(p) => if now + p <= u128::MAX {
                    Some((now + p) as u128)
                } else {
                    None
                },
                None => None,
            },
        }),
        r.1 == match (job.target_time, job.period) {
            (Some(target), Some(p)) => tasks::period_overrun(
                if now >= target {
                    (now - target) as u128
                } else {
                    0
                },
                p,
            ),
            _ => false,
        },
{
    let digest = match outcome {
        Ok(UploadHeatmapOutcome::Uploaded(digest)) => Some(digest),
        _ => job.last_digest,
    };
    let overrun = match (job.target_time, job.period) {
        (Some(target), Some(p)) => tasks::period_overrun(now.saturating_sub(target), p),
        _ => false,
    };
    let next_upload = match period {
        Some(p) => now.checked_add(p),
        None => None,
    };
    (WriteComplete { tenant_shard_id: job.tenant, completed_at: now, digest, next_upload }, overrun)
}

/// A heatmap that was uploaded is not uploaded again until it has changed.
pub proof fn unchanged_heatmaps_are_not_uploaded_again(heatmap: Seq<u8>, last: Option<u128>)
    ensures
        digest_to_upload(
            md5_digest(heatmap),
            digest_after(Ok(UploadHeatmapOutcome::Uploaded(md5_digest(heatmap))), last),
        ) is None,
{
}

/// A tenant that is stale or has uploads switched off gets no job and no state.
pub proof fn stale_tenants_are_left_alone(
    before: ScheduleModel,
    tenant: TenantInfo,
    now: u128,
    jitter: u128,
)
    requires
        tenant.period is None || tenant.attach_mode == AttachmentMode::Stale,
    ensures
        scheduled_one(before, tenant, now, jitter).states == before.states,
        scheduled_one(before, tenant, now, jitter).jobs == before.jobs,
{
}

/// The shortest of the periods that were asked for is kept.
pub proof fn the_shortest_period_is_kept(interval: Option<u128>, period: u128)
    ensures
        shorter(interval, period) is Some,
        shorter(interval, period)->0 <= period,
        interval matches Some(existing) ==> shorter(interval, period)->0 <= existing,
        shorter(interval, period) == Some(period) || shorter(interval, period) == interval,
{
}

/// A tenant that has not been seen before gets its first upload after the jitter, or at once
/// where the clock has no such time; nothing is known of an earlier one.
pub proof fn first_uploads_come_after_the_jitter(now: u128, jitter: u128)
    ensures
        fresh_state(now, jitter).alive,
        fresh_state(now, jitter).last_digest is None,
        fresh_state(now, jitter).last_upload is None,
        now + jitter <= u128::MAX ==> (fresh_state(now, jitter).next_upload matches Some(at) && at
            == now + jitter),
        now + jitter > u128::MAX ==> fresh_state(now, jitter).next_upload == Some(now),
{
}

/// An upload is due for a tenant exactly where uploads are switched on, the tenant is not stale,
/// and its time has come or it has none; it carries the digest of the last upload.  A known
/// tenant keeps its state and a new one gets a fresh one, and no other tenant is touched.
pub proof fn due_uploads_are_scheduled(
    before: ScheduleModel,
    tenant: TenantInfo,
    now: u128,
    jitter: u128,
    other: TenantShardId,
)
    ensures
        ({
            let after = scheduled_one(before, tenant, now, jitter);
            let known = before.states.dom().contains(tenant.id);
            let state = if known {
                before.states[tenant.id]
            } else {
                fresh_state(now, jitter)
            };
            let wanted = tenant.period is Some && tenant.attach_mode != AttachmentMode::Stale;
            let due = wanted && (state.next_upload is None || state.next_upload->0 <= now);
            &&& after.jobs == if due {
                before.jobs.push(
                    UploadPending {
                        tenant: tenant.id,
                        last_digest: state.last_digest,
                        target_time: state.next_upload,
                        period: tenant.period,
                    },
                )
            } else {
                before.jobs
            }
            &&& wanted ==> after.states.dom().contains(tenant.id) && after.states[tenant.id]
                == state
            &&& !wanted ==> after.states == before.states
            &&& other != tenant.id ==> after.states.dom().contains(other)
                == before.states.dom().contains(other) && (before.states.dom().contains(other)
                ==> after.states[other] == before.states[other])
            &&& after.want_interval == match (tenant.period, before.want_interval) {
                (None, w) => w,
                (Some(p), None) => Some(p),
                (Some(p), Some(w)) => Some(if w < p { w } else { p }),
            }
        }),
{
}

/// Tenants are scheduled one behind the other, each with its own jitter.
pub proof fn tenants_are_scheduled_in_order(
    before: ScheduleModel,
    tenants: Seq<TenantInfo>,
    now: u128,
    jitters: Seq<u128>,
    n: int,
)
    requires
        0 <= n < tenants.len(),
    ensures
        scheduled_all(before, tenants.take(0), now, jitters) == before,
        scheduled_all(before, tenants.take(n + 1), now, jitters) == scheduled_one(
            scheduled_all(before, tenants.take(n), now, jitters),
            tenants[n],
            now,
            jitters[n],
        ),
{
    assert(tenants.take(n + 1).drop_last() =~= tenants.take(n));
    assert(tenants.take(n + 1).last() == tenants[n]);
}

/// A state is kept exactly while its tenant is in memory and has an upload ahead.
pub proof fn states_are_kept_while_uploads_are_ahead(state: UploaderTenantState)
    ensures
        is_kept(state) <==> state.alive && state.next_upload is Some,
{
}

/// A heatmap is uploaded exactly where its digest is not that of the last upload, and the digest
/// is remembered exactly where the upload succeeded.
pub proof fn changed_heatmaps_are_uploaded(
    digest: u128,
    last: Option<u128>,
    outcome: Result<UploadHeatmapOutcome, UploadHeatmapError>,
)
    ensures
        digest_to_upload(digest, last) is None <==> last == Some(digest),
        digest_to_upload(digest, last) is Some ==> digest_to_upload(digest, last) == Some(digest),
        outcome == Ok::<UploadHeatmapOutcome, UploadHeatmapError>(
            UploadHeatmapOutcome::Uploaded(digest),
        ) ==> digest_after(outcome, last) == Some(digest),
        !(outcome matches Ok(UploadHeatmapOutcome::Uploaded(_))) ==> digest_after(outcome, last)
            == last,
{
}

/// Culling takes away exactly the states whose tenant is gone or has no upload ahead, and changes
/// no other.
pub proof fn culling_keeps_the_living(
    before: Map<TenantShardId, UploaderTenantState>,
    after: Map<TenantShardId, UploaderTenantState>,
    id: TenantShardId,
)
    requires
        culled(before, after),
    ensures
        after.dom().contains(id) <==> before.dom().contains(id) && before[id].alive
            && before[id].next_upload is Some,
        after.dom().contains(id) ==> after[id] == before[id],
{
}

/// A heatmap is complete exactly where no timeline is missing from it.
pub proof fn heatmaps_are_complete_or_skipped<T>(timelines: Seq<Option<T>>)
    ensures
        all_ready(timelines) <==> !timelines.contains(None),
{
    if !all_ready(timelines) {
        let i = choose|i: int| 0 <= i < timelines.len() && !((#[trigger] timelines[i]) is Some);
        assert(timelines[i] == None::<T>);
    }
    if timelines.contains(None) {
        let i = timelines.index_of(None);
        assert(timelines[i] is None);
    }
}

} // verus!
