//! The split of a shard, from the request to the answer.
//!
//! The parent's slot is acquired once the children's indexes are written, and released when
//! the children have taken over.  A split that fails before the parent is shut down puts the
//! parent back.
use vstd::prelude::*;

use crate::pageserver::ids;
use crate::pageserver::ids::ShardCount;
use crate::pageserver::ids::TenantShardId;
use crate::pageserver::ids::TimelineId;
use crate::pageserver::location::LocationConf;
use crate::pageserver::location_upsert;
use crate::pageserver::shard_split;
use crate::pageserver::shard_split::SplitError;
use crate::pageserver::shard_split::SplitPlan;
use crate::pageserver::tenant_manager;
use crate::pageserver::tenant_map;
use crate::pageserver::tenant_map::SlotGuard;
use crate::pageserver::tenant_map::Slots;
use crate::pageserver::tenant_map::TenantMapError;
use crate::pageserver::tenant_map::TenantSlot;
use crate::pageserver::tenant_map::TenantSlotAcquireMode;
use crate::pageserver::tenant_map::TenantSlotError;
use crate::pageserver::tenant_map::TenantSlotPeekMode;
use crate::pageserver::tenant_map::TenantsMap;

verus! {

/// How far a split has come.
pub enum SplitState {
    /// The children's indexes are being written.
    Preparing { plan: SplitPlan },
    /// They were not written, and the parent is being reset.
    Resetting,
    FlushingDeletions { plan: SplitPlan },
    /// The parent's files are being linked.
    Linking { plan: SplitPlan, guard: SlotGuard },
    /// The location of a child is being set.
    Locating { plan: SplitPlan, guard: SlotGuard, targets: Vec<(TimelineId, u64)>, next: usize },
    /// A child is becoming active.
    Activating { plan: SplitPlan, guard: SlotGuard, targets: Vec<(TimelineId, u64)>, next: usize },
    /// A child is catching up with the parent.
    CatchingUp { plan: SplitPlan, guard: SlotGuard, targets: Vec<(TimelineId, u64)>, next: usize },
    ShuttingDownParent { plan: SplitPlan, guard: SlotGuard },
    /// The parent's directory is being renamed.
    Renaming { plan: SplitPlan, guard: SlotGuard },
    Ended,
}

/// What has come of the last action.
pub enum SplitEvent {
    Done,
    Failed,
    /// The files are linked; the parent's timelines have come this far.
    Linked { targets: Vec<(TimelineId, u64)> },
    /// The child is active and has these timelines.
    Active { timelines: Vec<TimelineId> },
}

/// What has to be done next.
pub enum SplitAction {
    /// Write the indexes of the children.
    Prepare { handle: u64 },
    /// Reset the parent.
    Reset { parent: TenantShardId },
    FlushDeletions,
    /// Link the files of the parent into the directories of the children.
    Link { handle: u64 },
    /// Set the location of a child.
    SetLocation { child: TenantShardId, conf: LocationConf },
    /// Wait for a child to become active.
    WaitToBecomeActive { handle: u64 },
    /// Wait for the timelines of a child to come this far.
    WaitForLsns { targets: Vec<(TimelineId, u64)> },
    ShutDownParent { handle: u64 },
    /// Give the directory of the parent a temporary name.
    Rename { parent: TenantShardId },
    /// Remove the directory of the parent, and answer with the children.
    Finish { children: Vec<TenantShardId> },
    Fail { e: SplitError },
}

/// An action, with what it waits for as a sequence.
pub enum ActionModel {
    Prepare { handle: u64 },
    Reset { parent: TenantShardId },
    FlushDeletions,
    Link { handle: u64 },
    SetLocation { child: TenantShardId, conf: LocationConf },
    WaitToBecomeActive { handle: u64 },
    WaitForLsns { targets: Seq<(TimelineId, u64)> },
    ShutDownParent { handle: u64 },
    Rename { parent: TenantShardId },
    Finish { children: Seq<TenantShardId> },
    Fail { e: SplitError },
}

impl SplitAction {
    pub open spec fn model(self) -> ActionModel {
        match self {
            SplitAction::Prepare { handle } => ActionModel::Prepare { handle },
            SplitAction::Reset { parent } => ActionModel::Reset { parent },
            SplitAction::FlushDeletions => ActionModel::FlushDeletions,
            SplitAction::Link { handle } => ActionModel::Link { handle },
            SplitAction::SetLocation { child, conf } => ActionModel::SetLocation { child, conf },
            SplitAction::WaitToBecomeActive { handle } => ActionModel::WaitToBecomeActive {
                handle,
            },
            SplitAction::WaitForLsns { targets } => ActionModel::WaitForLsns { targets: targets@ },
            SplitAction::ShutDownParent { handle } => ActionModel::ShutDownParent { handle },
            SplitAction::Rename { parent } => ActionModel::Rename { parent },
            SplitAction::Finish { children } => ActionModel::Finish { children: children@ },
            SplitAction::Fail { e } => ActionModel::Fail { e },
        }
    }
}

impl SplitState {
    /// The plan, where the split is under way.
    pub open spec fn plan(self) -> Option<SplitPlan> {
        match self {
            SplitState::Preparing { plan } => Some(plan),
            SplitState::FlushingDeletions { plan } => Some(plan),
            SplitState::Linking { plan, .. } => Some(plan),
            SplitState::Locating { plan, .. } => Some(plan),
            SplitState::Activating { plan, .. } => Some(plan),
            SplitState::CatchingUp { plan, .. } => Some(plan),
            SplitState::ShuttingDownParent { plan, .. } => Some(plan),
            SplitState::Renaming { plan, .. } => Some(plan),
            _ => None,
        }
    }

    /// The guard of the parent's slot, where it is acquired.
    pub open spec fn guard(self) -> Option<SlotGuard> {
        match self {
            SplitState::Linking { guard, .. } => Some(guard),
            SplitState::Locating { guard, .. } => Some(guard),
            SplitState::Activating { guard, .. } => Some(guard),
            SplitState::CatchingUp { guard, .. } => Some(guard),
            SplitState::ShuttingDownParent { guard, .. } => Some(guard),
            SplitState::Renaming { guard, .. } => Some(guard),
            _ => None,
        }
    }

    /// The child that is dealt with.
    pub open spec fn child(self) -> int {
        match self {
            SplitState::Locating { next, .. } => next as int,
            SplitState::Activating { next, .. } => next as int,
            SplitState::CatchingUp { next, .. } => next as int,
            _ => 0,
        }
    }

    /// The guard is that of the parent's slot, which held an attached tenant, and the child
    /// that is dealt with is one of the plan.
    pub open spec fn wf(self) -> bool {
        &&& self.guard() matches Some(guard) ==> guard.wf() && !guard.upserted
            && guard.tenant_shard_id == self.plan()->0.parent && (guard.old_value matches Some(
            TenantSlot::Attached(_),
        ))
        &&& self is Locating || self is Activating || self is CatchingUp ==> self.child()
            < self.plan()->0.children@.len()
        &&& self is Renaming ==> tenant_map::old_shut_down(self.guard()->0.old_value)
    }

    /// Whether an event can come in this state.
    pub open spec fn expects(self, event: SplitEvent) -> bool {
        match self {
            SplitState::Preparing { .. } => event is Done || event is Failed,
            SplitState::Resetting => event is Done || event is Failed,
            SplitState::FlushingDeletions { .. } => event is Done,
            SplitState::Linking { .. } => event is Linked || event is Failed,
            SplitState::Locating { .. } => event is Done || event is Failed,
            SplitState::Activating { .. } => event is Active || event is Failed,
            SplitState::CatchingUp { .. } => event is Done,
            SplitState::ShuttingDownParent { .. } => event is Done,
            SplitState::Renaming { .. } => event is Done || event is Failed,
            SplitState::Ended => false,
        }
    }

    /// How many steps there are at most until the end.
    pub open spec fn steps_left(self) -> int {
        let n = match self.plan() {
            Some(plan) => plan.children@.len() as int,
            None => 0,
        };
        match self {
            SplitState::Preparing { .. } => 3 * n + 6,
            SplitState::Resetting => 1,
            SplitState::FlushingDeletions { .. } => 3 * n + 5,
            SplitState::Linking { .. } => 3 * n + 4,
            SplitState::Locating { .. } => 2 * n + 2 + (n - self.child()),
            SplitState::Activating { .. } => 2 + 2 * (n - self.child()),
            SplitState::CatchingUp { .. } => 1 + 2 * (n - self.child()),
            SplitState::ShuttingDownParent { .. } => 2,
            SplitState::Renaming { .. } => 1,
            SplitState::Ended => 0,
        }
    }
}

/// A failure.
pub open spec fn failure(slots: Slots, e: SplitError) -> (SplitState, Slots, ActionModel) {
    (SplitState::Ended, slots, ActionModel::Fail { e })
}

/// The error for a parent's slot that is not acquired.
pub open spec fn parent_refusal(why: tenant_map::Refusal) -> SplitError {
    SplitError::Slot(
        match why {
            tenant_map::Refusal::MapState(s) => TenantSlotError::MapState(s),
            _ => TenantSlotError::InProgress,
        },
    )
}

/// The first child from `from` on that is attached, and its handle.
pub open spec fn attached_child(
    tenants: TenantsMap,
    children: Seq<TenantShardId>,
    from: int,
) -> Result<Option<(int, u64)>, TenantMapError>
    decreases children.len() - from,
{
    if from < 0 || from >= children.len() {
        Ok(None)
    } else {
        match tenant_map::peeked(tenants, children[from], TenantSlotPeekMode::Read) {
            Err(e) => Err(e),
            Ok(Some(TenantSlot::Attached(t))) => Ok(Some((from, t.handle))),
            Ok(_) => attached_child(tenants, children, from + 1),
        }
    }
}

/// Sets the location of a child.
pub open spec fn located(
    slots: Slots,
    plan: SplitPlan,
    guard: SlotGuard,
    targets: Vec<(TimelineId, u64)>,
    next: int,
) -> (SplitState, Slots, ActionModel) {
    let child = plan.children@[next];
    (
        SplitState::Locating { plan, guard, targets, next: next as usize },
        slots,
        ActionModel::SetLocation { child, conf: shard_split::child_location_of(plan, child) },
    )
}

/// Waits for the next child that is attached, or, behind the last, shuts the parent down.
pub open spec fn awaited(
    tenants: TenantsMap,
    plan: SplitPlan,
    guard: SlotGuard,
    targets: Vec<(TimelineId, u64)>,
    from: int,
) -> (SplitState, Slots, ActionModel) {
    match attached_child(tenants, plan.children@, from) {
        Err(e) => failure(location_upsert::given_up(tenants, guard), SplitError::Unavailable(e)),
        Ok(Some((i, handle))) => (
            SplitState::Activating { plan, guard, targets, next: i as usize },
            tenants.slots(),
            ActionModel::WaitToBecomeActive { handle },
        ),
        Ok(None) => (
            SplitState::ShuttingDownParent { plan, guard },
            tenants.slots(),
            ActionModel::ShutDownParent { handle: parent_handle(guard) },
        ),
    }
}

/// The handle of the parent that a guard holds.
pub open spec fn parent_handle(guard: SlotGuard) -> u64 {
    match guard.old_value {
        Some(TenantSlot::Attached(t)) => t.handle,
        _ => 0,
    }
}

/// What an event leads to: the state, the slots and the action.
pub open spec fn stepped(
    tenants: TenantsMap,
    state: SplitState,
    event: SplitEvent,
    barrier: u64,
    completion: u64,
) -> (SplitState, Slots, ActionModel) {
    let slots = tenants.slots();
    match (state, event) {
        (SplitState::Preparing { plan }, SplitEvent::Done) => (
            SplitState::FlushingDeletions { plan },
            slots,
            ActionModel::FlushDeletions,
        ),
        (SplitState::Preparing { plan }, _) => (
            SplitState::Resetting,
            slots,
            ActionModel::Reset { parent: plan.parent },
        ),
        (SplitState::Resetting, SplitEvent::Done) => failure(slots, SplitError::Prepare),
        (SplitState::Resetting, _) => failure(slots, SplitError::Reset),
        (SplitState::FlushingDeletions { plan }, _) => match tenant_map::refusal(
            tenants,
            plan.parent,
            TenantSlotAcquireMode::Any,
        ) {
            Some(why) => failure(slots, parent_refusal(why)),
            None => {
                let old_value = tenant_map::slot_value(slots, plan.parent);
                match old_value {
                    Some(TenantSlot::Attached(t)) => {
                        let guard = SlotGuard {
                            tenant_shard_id: plan.parent,
                            old_value,
                            upserted: false,
                            completion,
                        };
                        (
                            SplitState::Linking { plan, guard },
                            slots.insert(plan.parent, TenantSlot::InProgress(barrier)),
                            ActionModel::Link { handle: t.handle },
                        )
                    },
                    _ => failure(
                        if tenant_map::old_shut_down(old_value) {
                            slots.remove(plan.parent)
                        } else {
                            slots
                        },
                        if old_value is Some {
                            SplitError::ParentSecondary
                        } else {
                            SplitError::ParentDetached
                        },
                    ),
                }
            },
        },
        (
            SplitState::Linking { plan, guard },
            SplitEvent::Linked { targets },
        ) => if plan.children@.len() > 0 {
            located(slots, plan, guard, targets, 0)
        } else {
            awaited(tenants, plan, guard, targets, 0)
        },
        (SplitState::Linking { guard, .. }, _) => failure(
            location_upsert::given_up(tenants, guard),
            SplitError::Link,
        ),
        (
            SplitState::Locating { plan, guard, targets, next },
            SplitEvent::Done,
        ) => if next + 1 < plan.children@.len() {
            located(slots, plan, guard, targets, next + 1)
        } else {
            awaited(tenants, plan, guard, targets, 0)
        },
        (SplitState::Locating { guard, .. }, _) => failure(
            location_upsert::given_up(tenants, guard),
            SplitError::Location,
        ),
        (
            SplitState::Activating { plan, guard, targets, next },
            SplitEvent::Active { timelines },
        ) => (
            SplitState::CatchingUp { plan, guard, targets, next },
            slots,
            ActionModel::WaitForLsns { targets: shard_split::targets_of(targets@, timelines@) },
        ),
        (SplitState::Activating { plan, guard, targets, next }, _) => awaited(
            tenants,
            plan,
            guard,
            targets,
            next + 1,
        ),
        (SplitState::CatchingUp { plan, guard, targets, next }, _) => awaited(
            tenants,
            plan,
            guard,
            targets,
            next + 1,
        ),
        (SplitState::ShuttingDownParent { plan, guard }, _) => (
            SplitState::Renaming {
                plan,
                guard: SlotGuard {
                    old_value: tenant_map::shut_down_value(guard.old_value),
                    ..guard
                },
            },
            slots,
            ActionModel::Rename { parent: plan.parent },
        ),
        (SplitState::Renaming { plan, guard }, SplitEvent::Done) => (
            SplitState::Ended,
            if tenants.is_open() {
                slots.remove(plan.parent)
            } else {
                slots
            },
            ActionModel::Finish { children: plan.children@ },
        ),
        (SplitState::Renaming { guard, .. }, _) => failure(
            location_upsert::given_up(tenants, guard),
            SplitError::Rename,
        ),
        (SplitState::Ended, _) => failure(slots, SplitError::Prepare),
    }
}

/// Begins to split the shard of an active tenant.
pub fn shard_split(tenants: &TenantsMap, id: TenantShardId, new_count: ShardCount) -> (r: (
    SplitState,
    SplitAction,
))
    requires
        tenants.wf(),
    ensures
        r.0.wf(),
        match tenant_manager::lookup(*tenants, id, true) {
            Err(e) => r == (SplitState::Ended, SplitAction::Fail { e: SplitError::Tenant(e) }),
            Ok(tenant) => match shard_split::split_refusal(id.shard_count, new_count) {
                Some(e) => r == (SplitState::Ended, SplitAction::Fail { e }),
                None => {
                    &&& r.0 matches SplitState::Preparing { plan }
                    &&& plan.parent == id
                    &&& plan.handle == tenant.handle
                    &&& plan.parent_identity == tenant.shard_identity
                    &&& plan.parent_generation == tenant.generation
                    &&& plan.parent_conf == tenant.tenant_conf
                    &&& plan.children@ == ids::split_children(id, new_count, new_count.0 as int)
                    &&& r.1 == (SplitAction::Prepare { handle: tenant.handle })
                },
            },
        },
{
    match shard_split::plan_split(tenants, id, new_count) {
        Err(e) => (SplitState::Ended, SplitAction::Fail { e }),
        Ok(plan) => {
            let handle = plan.handle;
            (SplitState::Preparing { plan }, SplitAction::Prepare { handle })
        },
    }
}

/// Gives the parent's slot up because of an error.
fn give_up(tenants: &mut TenantsMap, guard: SlotGuard, e: SplitError) -> (r: (
    SplitState,
    SplitAction,
))
    requires
        old(tenants).wf(),
        guard.wf(),
        !guard.upserted,
    ensures
        final(tenants).wf(),
        final(tenants).is_open() == old(tenants).is_open(),
        final(tenants).is_shutting_down() == old(tenants).is_shutting_down(),
        (r.0, final(tenants).slots(), r.1.model()) == failure(
            location_upsert::given_up(*old(tenants), guard),
            e,
        ),
{
    guard.release(tenants);
    (SplitState::Ended, SplitAction::Fail { e })
}

/// Sets the location of a child.
fn locate(plan: SplitPlan, guard: SlotGuard, targets: Vec<(TimelineId, u64)>, next: usize) -> (r: (
    SplitState,
    SplitAction,
))
    requires
        next < plan.children@.len(),
    ensures
        forall|slots: Slots|
            (r.0, slots, r.1.model()) == #[trigger] located(
                slots,
                plan,
                guard,
                targets,
                next as int,
            ),
{
    let child = plan.children[next];
    let conf = shard_split::child_location(&plan, child);
    (
        SplitState::Locating { plan, guard, targets, next },
        SplitAction::SetLocation { child, conf },
    )
}

/// Waits for the next child that is attached, or shuts the parent down.
fn wait_from(
    tenants: &mut TenantsMap,
    plan: SplitPlan,
    guard: SlotGuard,
    targets: Vec<(TimelineId, u64)>,
    from: usize,
) -> (r: (SplitState, SplitAction))
    requires
        old(tenants).wf(),
        guard.wf(),
        !guard.upserted,
        guard.tenant_shard_id == plan.parent,
        guard.old_value matches Some(TenantSlot::Attached(_)),
        from <= plan.children@.len(),
    ensures
        final(tenants).wf(),
        final(tenants).is_open() == old(tenants).is_open(),
        final(tenants).is_shutting_down() == old(tenants).is_shutting_down(),
        (r.0, final(tenants).slots(), r.1.model()) == awaited(
            *old(tenants),
            plan,
            guard,
            targets,
            from as int,
        ),
        r.0.wf(),
{
    let mut i: usize = from;
    while i < plan.children.len()
        invariant
            from <= i <= plan.children@.len(),
            old(tenants).wf(),
            *tenants == *old(tenants),
            guard.wf(),
            !guard.upserted,
            guard.tenant_shard_id == plan.parent,
            guard.old_value matches Some(TenantSlot::Attached(_)),
            attached_child(*old(tenants), plan.children@, from as int) == attached_child(
                *old(tenants),
                plan.children@,
                i as int,
            ),
        decreases plan.children@.len() - i,
    {
        let child = plan.children[i];
        match tenant_map::tenant_map_peek_slot(tenants, &child, TenantSlotPeekMode::Read) {
            Err(e) => {
                return give_up(tenants, guard, SplitError::Unavailable(e));
            },
            Ok(Some(TenantSlot::Attached(t))) => {
                let handle = t.handle;
                return (
                    SplitState::Activating { plan, guard, targets, next: i },
                    SplitAction::WaitToBecomeActive { handle },
                );
            },
            Ok(_) => {},
        }
        i += 1;
    }
    let handle = match guard.get_old_value() {
        Some(TenantSlot::Attached(t)) => t.handle,
        _ => 0,
    };
    (SplitState::ShuttingDownParent { plan, guard }, SplitAction::ShutDownParent { handle })
}

/// Goes on with a split after the last action has ended.  `barrier` is what others wait on
/// while the parent's slot is acquired, and `completion` releases them.
pub fn split_step(
    tenants: &mut TenantsMap,
    state: SplitState,
    event: SplitEvent,
    barrier: u64,
    completion: u64,
) -> (r: (SplitState, SplitAction))
    requires
        old(tenants).wf(),
        state.wf(),
        state.expects(event),
    ensures
        final(tenants).wf(),
        final(tenants).is_open() == old(tenants).is_open(),
        final(tenants).is_shutting_down() == old(tenants).is_shutting_down(),
        (r.0, final(tenants).slots(), r.1.model()) == stepped(
            *old(tenants),
            state,
            event,
            barrier,
            completion,
        ),
        r.0.wf(),
{
    match (state, event) {
        (SplitState::Preparing { plan }, SplitEvent::Done) => (
            SplitState::FlushingDeletions { plan },
            SplitAction::FlushDeletions,
        ),
        (SplitState::Preparing { plan }, _) => (
            SplitState::Resetting,
            SplitAction::Reset { parent: plan.parent },
        ),
        (SplitState::Resetting, SplitEvent::Done) => (
            SplitState::Ended,
            SplitAction::Fail { e: SplitError::Prepare },
        ),
        (SplitState::Resetting, _) => (
            SplitState::Ended,
            SplitAction::Fail { e: SplitError::Reset },
        ),
        (SplitState::FlushingDeletions { plan }, _) => {
            match shard_split::acquire_parent(tenants, plan.parent, barrier, completion) {
                Err(e) => (SplitState::Ended, SplitAction::Fail { e }),
                Ok((guard, handle)) => (
                    SplitState::Linking { plan, guard },
                    SplitAction::Link { handle },
                ),
            }
        },
        (SplitState::Linking { plan, guard }, SplitEvent::Linked { targets }) => {
            if plan.children.len() > 0 {
                locate(plan, guard, targets, 0)
            } else {
                wait_from(tenants, plan, guard, targets, 0)
            }
        },
        (SplitState::Linking { guard, .. }, _) => give_up(tenants, guard, SplitError::Link),
        (SplitState::Locating { plan, guard, targets, next }, SplitEvent::Done) => {
            let n = plan.children.len();
            if next + 1 < n {
                locate(plan, guard, targets, next + 1)
            } else {
                wait_from(tenants, plan, guard, targets, 0)
            }
        },
        (SplitState::Locating { guard, .. }, _) => give_up(tenants, guard, SplitError::Location),
        (
            SplitState::Activating { plan, guard, targets, next },
            SplitEvent::Active { timelines },
        ) => {
            let wanted = shard_split::wait_targets(&targets, &timelines);
            (
                SplitState::CatchingUp { plan, guard, targets, next },
                SplitAction::WaitForLsns { targets: wanted },
            )
        },
        (SplitState::Activating { plan, guard, targets, next }, _) => {
            assert(next < plan.children.len());
            wait_from(tenants, plan, guard, targets, next + 1)
        },
        (SplitState::CatchingUp { plan, guard, targets, next }, _) => {
            assert(next < plan.children.len());
            wait_from(tenants, plan, guard, targets, next + 1)
        },
        (SplitState::ShuttingDownParent { plan, guard }, _) => {
            let mut guard = guard;
            guard.old_value_shut_down();
            let parent = plan.parent;
            (SplitState::Renaming { plan, guard }, SplitAction::Rename { parent })
        },
        (SplitState::Renaming { plan, guard }, SplitEvent::Done) => {
            shard_split::finish_split(guard, tenants);
            (SplitState::Ended, SplitAction::Finish { children: plan.children })
        },
        (SplitState::Renaming { guard, .. }, _) => give_up(tenants, guard, SplitError::Rename),
        (SplitState::Ended, _) => (
            SplitState::Ended,
            SplitAction::Fail { e: SplitError::Prepare },
        ),
    }
}

/// The child that is found is one from `from` on.
proof fn lemma_attached_child(tenants: TenantsMap, children: Seq<TenantShardId>, from: int)
    requires
        0 <= from,
    ensures
        attached_child(tenants, children, from) matches Ok(Some((i, _))) ==> from <= i
            < children.len(),
    decreases children.len() - from,
{
    if from < children.len() {
        lemma_attached_child(tenants, children, from + 1);
    }
}

/// A split ends.
pub proof fn splits_end(
    tenants: TenantsMap,
    state: SplitState,
    event: SplitEvent,
    barrier: u64,
    completion: u64,
)
    requires
        state.wf(),
        state.expects(event),
    ensures
        0 <= stepped(tenants, state, event, barrier, completion).0.steps_left()
            < state.steps_left(),
{
    if let Some(plan) = state.plan() {
        assert(plan.children.len() == plan.children@.len());
        lemma_attached_child(tenants, plan.children@, 0);
        lemma_attached_child(tenants, plan.children@, state.child() + 1);
    }
}

/// A split that fails before the parent is shut down leaves the parent in its slot as it
/// was, and changes no other slot.
pub proof fn failed_splits_keep_the_parent(
    tenants: TenantsMap,
    state: SplitState,
    event: SplitEvent,
    barrier: u64,
    completion: u64,
    before: Slots,
)
    requires
        state.wf(),
        state.expects(event),
        state is Linking || state is Locating || state is Activating || state is CatchingUp,
        tenants is Open,
        tenants.slots() == before.insert(state.plan()->0.parent, TenantSlot::InProgress(barrier)),
        state.guard()->0.old_value == tenant_map::slot_value(before, state.plan()->0.parent),
        !tenant_map::old_shut_down(state.guard()->0.old_value),
        stepped(tenants, state, event, barrier, completion).2 is Fail,
    ensures
        stepped(tenants, state, event, barrier, completion).1 == before,
{
    tenant_map::release_keeps_running_tenants(
        before,
        state.plan()->0.parent,
        barrier,
        state.guard()->0.old_value,
    );
}

/// The parent is shut down only after the location of the last child was set.
pub proof fn the_parent_goes_last(
    tenants: TenantsMap,
    state: SplitState,
    event: SplitEvent,
    barrier: u64,
    completion: u64,
)
    requires
        state.wf(),
        state.expects(event),
        state.plan() matches Some(plan) && plan.children@.len() > 0,
        stepped(tenants, state, event, barrier, completion).2 is ShutDownParent,
    ensures
        state is Activating || state is CatchingUp || (state is Locating && event is Done
            && state.child() == state.plan()->0.children@.len() - 1),
{
}

/// The location of every child is set, one after the other, in the order of the plan: each
/// in the parent's generation.
pub proof fn children_are_located_in_order(
    tenants: TenantsMap,
    state: SplitState,
    event: SplitEvent,
    barrier: u64,
    completion: u64,
)
    requires
        state.wf(),
        state.expects(event),
        stepped(tenants, state, event, barrier, completion).0 is Locating,
    ensures
        ({
            let (next, _, action) = stepped(tenants, state, event, barrier, completion);
            let plan = next.plan()->0;
            let child = plan.children@[next.child()];
            &&& next.child() == if state is Locating {
                state.child() + 1
            } else {
                0
            }
            &&& action == (ActionModel::SetLocation {
                child,
                conf: shard_split::child_location_of(plan, child),
            })
        }),
{
    let plan = state.plan()->0;
    assert(plan.children.len() == plan.children@.len());
}

/// A split that has succeeded leaves no parent in its slot, and answers with the children of
/// the plan.
pub proof fn finished_splits_leave_no_parent(
    tenants: TenantsMap,
    state: SplitState,
    event: SplitEvent,
    barrier: u64,
    completion: u64,
)
    requires
        state.wf(),
        state.expects(event),
        tenants is Open,
        stepped(tenants, state, event, barrier, completion).2 is Finish,
    ensures
        state is Renaming,
        stepped(tenants, state, event, barrier, completion).2 == (ActionModel::Finish {
            children: state.plan()->0.children@,
        }),
        stepped(tenants, state, event, barrier, completion).1 == tenants.slots().remove(
            state.plan()->0.parent,
        ),
{
}

/// A split whose children's indexes could not be written resets its parent, and fails with the
/// reason that fits whether that succeeded.
pub proof fn unprepared_splits_reset_their_parent(
    tenants: TenantsMap,
    plan: SplitPlan,
    barrier: u64,
    completion: u64,
)
    ensures
        stepped(
            tenants,
            SplitState::Preparing { plan },
            SplitEvent::Failed,
            barrier,
            completion,
        ) == (
            SplitState::Resetting,
            tenants.slots(),
            ActionModel::Reset { parent: plan.parent },
        ),
        stepped(tenants, SplitState::Resetting, SplitEvent::Done, barrier, completion) == (
            SplitState::Ended,
            tenants.slots(),
            ActionModel::Fail { e: SplitError::Prepare },
        ),
        stepped(tenants, SplitState::Resetting, SplitEvent::Failed, barrier, completion) == (
            SplitState::Ended,
            tenants.slots(),
            ActionModel::Fail { e: SplitError::Reset },
        ),
        stepped(
            tenants,
            SplitState::Preparing { plan },
            SplitEvent::Done,
            barrier,
            completion,
        ) == (
            SplitState::FlushingDeletions { plan },
            tenants.slots(),
            ActionModel::FlushDeletions,
        ),
{
}

/// Once deletions are flushed the parent's slot is marked and its files are linked, where it is
/// still attached and no operation is under way; otherwise the split fails.
pub proof fn attached_parents_are_marked(
    tenants: TenantsMap,
    plan: SplitPlan,
    barrier: u64,
    completion: u64,
)
    ensures
        ({
            let (state, slots, action) = stepped(
                tenants,
                SplitState::FlushingDeletions { plan },
                SplitEvent::Done,
                barrier,
                completion,
            );
            let old = tenant_map::slot_value(tenants.slots(), plan.parent);
            &&& tenants is Initializing ==> action == (ActionModel::Fail {
                e: SplitError::Slot(TenantSlotError::MapState(TenantMapError::StillInitializing)),
            }) && slots == tenants.slots()
            &&& tenants is ShuttingDown ==> action == (ActionModel::Fail {
                e: SplitError::Slot(TenantSlotError::MapState(TenantMapError::ShuttingDown)),
            }) && slots == tenants.slots()
            &&& tenants is Open ==> match old {
                Some(TenantSlot::Attached(t)) => {
                    &&& action == (ActionModel::Link { handle: t.handle })
                    &&& slots == tenants.slots().insert(
                        plan.parent,
                        TenantSlot::InProgress(barrier),
                    )
                    &&& state == (SplitState::Linking {
                        plan,
                        guard: SlotGuard {
                            tenant_shard_id: plan.parent,
                            old_value: old,
                            upserted: false,
                            completion,
                        },
                    })
                },
                Some(TenantSlot::InProgress(_)) => action == (ActionModel::Fail {
                    e: SplitError::Slot(TenantSlotError::InProgress),
                }) && slots == tenants.slots(),
                Some(TenantSlot::Secondary(s)) => action == (ActionModel::Fail {
                    e: SplitError::ParentSecondary,
                }) && slots == if s.shut_down {
                    tenants.slots().remove(plan.parent)
                } else {
                    tenants.slots()
                },
                None => action == (ActionModel::Fail { e: SplitError::ParentDetached }) && slots
                    =~= tenants.slots(),
            }
        }),
{
}

/// A failure after the parent's slot was marked gives the slot up and tells which step failed; a
/// child that does not become active is passed over.
pub proof fn failed_steps_are_told(
    tenants: TenantsMap,
    state: SplitState,
    barrier: u64,
    completion: u64,
)
    requires
        state.wf(),
        state is Linking || state is Locating || state is Renaming,
    ensures
        stepped(tenants, state, SplitEvent::Failed, barrier, completion) == (
            SplitState::Ended,
            location_upsert::given_up(tenants, state.guard()->0),
            ActionModel::Fail {
                e: if state is Linking {
                    SplitError::Link
                } else if state is Locating {
                    SplitError::Location
                } else {
                    SplitError::Rename
                },
            },
        ),
{
}

/// The first child from a number on that is attached is the one that is waited for, and none is
/// passed over that is.
pub proof fn attached_children_are_waited_for(
    tenants: TenantsMap,
    children: Seq<TenantShardId>,
    from: int,
    i: int,
)
    requires
        tenants is Open,
        0 <= from <= children.len(),
    ensures
        attached_child(tenants, children, from) is Ok,
        attached_child(tenants, children, from) matches Ok(Some((k, handle))) ==> from <= k
            < children.len() && tenants.slots().dom().contains(children[k]) && (
        tenants.slots()[children[k]] matches TenantSlot::Attached(t) && t.handle == handle) && (
        from <= i < k ==> !(tenants.slots().dom().contains(children[i])
            && tenants.slots()[children[i]] is Attached)),
        attached_child(tenants, children, from) == Ok::<Option<(int, u64)>, TenantMapError>(None)
            ==> (from <= i < children.len() ==> !(tenants.slots().dom().contains(children[i])
            && tenants.slots()[children[i]] is Attached)),
    decreases children.len() - from,
{
    if from < children.len() {
        attached_children_are_waited_for(tenants, children, from + 1, i);
    }
}

/// A child that is active is waited for until it has reached the parent's positions; then the
/// next one is, and a child that failed to become active holds nothing up.
pub proof fn children_catch_up_one_by_one(
    tenants: TenantsMap,
    plan: SplitPlan,
    guard: SlotGuard,
    targets: Vec<(TimelineId, u64)>,
    next: usize,
    timelines: Vec<TimelineId>,
    barrier: u64,
    completion: u64,
)
    ensures
        stepped(
            tenants,
            SplitState::Activating { plan, guard, targets, next },
            SplitEvent::Active { timelines },
            barrier,
            completion,
        ) == (
            SplitState::CatchingUp { plan, guard, targets, next },
            tenants.slots(),
            ActionModel::WaitForLsns { targets: shard_split::targets_of(targets@, timelines@) },
        ),
        stepped(
            tenants,
            SplitState::CatchingUp { plan, guard, targets, next },
            SplitEvent::Done,
            barrier,
            completion,
        ) == stepped(
            tenants,
            SplitState::Activating { plan, guard, targets, next },
            SplitEvent::Failed,
            barrier,
            completion,
        ),
        tenants is Open ==> ({
            let (state, slots, action) = stepped(
                tenants,
                SplitState::CatchingUp { plan, guard, targets, next },
                SplitEvent::Done,
                barrier,
                completion,
            );
            &&& slots == tenants.slots()
            &&& match attached_child(tenants, plan.children@, next + 1) {
                Ok(Some((i, handle))) => action == (ActionModel::WaitToBecomeActive { handle })
                    && state == (SplitState::Activating { plan, guard, targets, next: i as usize }),
                _ => (guard.old_value matches Some(TenantSlot::Attached(t)) ==> action == (
                ActionModel::ShutDownParent { handle: t.handle })) && state == (
                SplitState::ShuttingDownParent { plan, guard }),
            }
        }),
{
    if tenants is Open {
        if next + 1 <= plan.children@.len() {
            attached_children_are_waited_for(tenants, plan.children@, next + 1, 0);
        }
    }
}

/// The directory of the parent is renamed once the parent is shut down.
pub proof fn parents_are_renamed_when_shut_down(
    tenants: TenantsMap,
    plan: SplitPlan,
    guard: SlotGuard,
    barrier: u64,
    completion: u64,
)
    ensures
        ({
            let (state, slots, action) = stepped(
                tenants,
                SplitState::ShuttingDownParent { plan, guard },
                SplitEvent::Done,
                barrier,
                completion,
            );
            &&& slots == tenants.slots()
            &&& action == (ActionModel::Rename { parent: plan.parent })
            &&& state is Renaming
            &&& state.plan() == Some(plan)
            &&& state.guard()->0.old_value == tenant_map::shut_down_value(guard.old_value)
            &&& state.guard()->0.tenant_shard_id == guard.tenant_shard_id
        }),
{
}

/// A split is finished only where the directory of its parent was renamed; it names all
/// children of the plan, and the parent leaves the map while that is open.
pub proof fn splits_finish_with_the_rename(
    tenants: TenantsMap,
    plan: SplitPlan,
    guard: SlotGuard,
    barrier: u64,
    completion: u64,
)
    ensures
        stepped(
            tenants,
            SplitState::Renaming { plan, guard },
            SplitEvent::Done,
            barrier,
            completion,
        ) == (
            SplitState::Ended,
            if tenants is Open {
                tenants.slots().remove(plan.parent)
            } else {
                tenants.slots()
            },
            ActionModel::Finish { children: plan.children@ },
        ),
{
}

} // verus!
