//! Deletion of a timeline.
//!
//! A deletion is prepared while its timeline is still in the tenant's map.  Its tasks are
//! stopped, it is marked as deleted in remote storage, its local files and then its remote
//! files are removed, and at last it leaves the map.  A deletion that failed on the way can
//! be started again from the beginning.
use vstd::prelude::*;

use crate::base::ordered_map::OrderedMap;
use crate::pageserver::ids::TimelineId;

verus! {

/// How far the deletion of a timeline has come.
#[derive(Clone, Copy, Debug, PartialEq, Eq, Structural)]
pub enum DeleteTimelineFlow {
    NotStarted,
    InProgress,
    Finished,
}

/// A deletion that has finished was started again.
#[derive(Clone, Copy, Debug, PartialEq, Eq, Structural)]
pub struct AlreadyFinished;

impl AlreadyFinished {
    /// The error in words.
    pub fn message(&self) -> (r: &'static str)
        ensures
            r@ == "Bug. Is in finished state"@,
    {
        "Bug. Is in finished state"
    }
}

impl Default for DeleteTimelineFlow {
    fn default() -> (r: DeleteTimelineFlow)
        ensures
            r == DeleteTimelineFlow::NotStarted,
    {
        DeleteTimelineFlow::NotStarted
    }
}

impl DeleteTimelineFlow {
    /// Starts the deletion, afresh or again.
    pub fn mark_in_progress(&mut self) -> (r: Result<(), AlreadyFinished>)
        ensures
            r is Err <==> *old(self) == DeleteTimelineFlow::Finished,
            *final(self) == if *old(self) == DeleteTimelineFlow::Finished {
                DeleteTimelineFlow::Finished
            } else {
                DeleteTimelineFlow::InProgress
            },
    {
        match self {
            DeleteTimelineFlow::Finished => {
                return Err(AlreadyFinished);
            },
            DeleteTimelineFlow::InProgress => {},
            DeleteTimelineFlow::NotStarted => {},
        }
        *self = DeleteTimelineFlow::InProgress;
        Ok(())
    }

    /// Whether the deletion has finished.
    pub fn is_finished(&self) -> (r: bool)
        ensures
            r == (*self == DeleteTimelineFlow::Finished),
    {
        match self {
            DeleteTimelineFlow::Finished => true,
            _ => false,
        }
    }
}

/// What a timeline is doing.
#[derive(Clone, Copy, Debug, PartialEq, Eq, Structural)]
pub enum TimelineState {
    Loading,
    Active,
    Stopping,
    Broken,
}

/// A timeline of a tenant.
#[derive(Clone, Copy, Debug, PartialEq, Eq, Structural)]
pub struct Timeline {
    pub ancestor: Option<TimelineId>,
    pub state: TimelineState,
    /// Whether a deletion is at work on it.
    pub delete_lock_held: bool,
    pub delete_progress: DeleteTimelineFlow,
}

/// Why a timeline was not deleted.
pub enum DeleteTimelineError {
    NotFound,
    HasChildren(Vec<TimelineId>),
    /// Another deletion is at work on it, and has come this far.
    AlreadyInProgress(DeleteTimelineFlow),
    Finished(AlreadyFinished),
    /// A step of the deletion failed.
    Other,
}

/// The timelines that branch off `id`, in order.
pub open spec fn children_of(entries: Seq<(TimelineId, Timeline)>, id: TimelineId) -> Seq<TimelineId>
    decreases entries.len(),
{
    if entries.len() == 0 {
        Seq::empty()
    } else {
        let front = children_of(entries.drop_last(), id);
        if entries.last().1.ancestor == Some(id) {
            front.push(entries.last().0)
        } else {
            front
        }
    }
}

/// The timelines that branch off `id`.
pub fn children(timelines: &OrderedMap<TimelineId, Timeline>, id: TimelineId) -> (r: Vec<TimelineId>)
    ensures
        r@ == children_of(timelines.entries@, id),
{
    let mut r: Vec<TimelineId> = Vec::new();
    let mut i: usize = 0;
    assert(timelines.entries@.take(0).len() == 0);
    while i < timelines.entries.len()
        invariant
            i <= timelines.entries@.len(),
            r@ == children_of(timelines.entries@.take(i as int), id),
        decreases timelines.entries@.len() - i,
    {
        assert(timelines.entries@.take(i + 1).drop_last() =~= timelines.entries@.take(i as int));
        let entry = timelines.entries[i];
        if let Some(ancestor) = entry.1.ancestor {
            if ancestor == id {
                r.push(entry.0);
            }
        }
        i += 1;
    }
    assert(timelines.entries@.take(i as int) =~= timelines.entries@);
    r
}

/// How marking a timeline as deleted in remote storage has ended.
#[derive(Clone, Copy, Debug, PartialEq, Eq, Structural)]
pub enum MarkDeletedEnd {
    Done,
    AlreadyDeleted,
    AlreadyInProgress,
    Failed,
}

/// Whether the deletion goes on after the timeline was to be marked: it is marked now, or was
/// before.
pub fn after_mark_deleted(end: MarkDeletedEnd) -> (r: bool)
    ensures
        r == (end == MarkDeletedEnd::Done || end == MarkDeletedEnd::AlreadyDeleted),
{
    match end {
        MarkDeletedEnd::Done => true,
        MarkDeletedEnd::AlreadyDeleted => true,
        MarkDeletedEnd::AlreadyInProgress => false,
        MarkDeletedEnd::Failed => false,
    }
}

/// The steps of a deletion that was prepared.
#[derive(Clone, Copy, Debug, PartialEq, Eq, Structural)]
pub enum DeletionStep {
    /// Stop the timeline's tasks.
    StopTasks,
    /// Mark it as deleted in remote storage.
    MarkDeleted,
    /// Remove its directory.
    DeleteLocal,
    /// Remove its files in remote storage.
    DeleteRemote,
    /// Take it out of the tenant's map.
    LeaveMap,
    Finished,
}

/// The step that comes after one that was completed.
pub open spec fn step_after(step: DeletionStep) -> DeletionStep {
    match step {
        DeletionStep::StopTasks => DeletionStep::MarkDeleted,
        DeletionStep::MarkDeleted => DeletionStep::DeleteLocal,
        DeletionStep::DeleteLocal => DeletionStep::DeleteRemote,
        DeletionStep::DeleteRemote => DeletionStep::LeaveMap,
        DeletionStep::LeaveMap => DeletionStep::Finished,
        DeletionStep::Finished => DeletionStep::Finished,
    }
}

/// Whether a step runs in the background unless the deletion is to be done in place.
pub fn is_background(step: DeletionStep) -> (r: bool)
    ensures
        r == !(step == DeletionStep::StopTasks || step == DeletionStep::MarkDeleted),
{
    match step {
        DeletionStep::StopTasks => false,
        DeletionStep::MarkDeleted => false,
        _ => true,
    }
}

/// The step that comes after one that was completed.
pub fn next_step(step: DeletionStep) -> (r: DeletionStep)
    ensures
        r == step_after(step),
{
    match step {
        DeletionStep::StopTasks => DeletionStep::MarkDeleted,
        DeletionStep::MarkDeleted => DeletionStep::DeleteLocal,
        DeletionStep::DeleteLocal => DeletionStep::DeleteRemote,
        DeletionStep::DeleteRemote => DeletionStep::LeaveMap,
        DeletionStep::LeaveMap => DeletionStep::Finished,
        DeletionStep::Finished => DeletionStep::Finished,
    }
}

/// What is in a tenant's map once the deletion of a timeline has been prepared and noted on
/// it, and the step to begin with, or why it was not.
pub open spec fn run_outcome(before: Timeline) -> Result<Timeline, Timeline> {
    if before.delete_progress == DeleteTimelineFlow::Finished {
        Err(Timeline { state: TimelineState::Stopping, ..before })
    } else {
        Ok(
            Timeline {
                state: TimelineState::Stopping,
                delete_lock_held: true,
                delete_progress: DeleteTimelineFlow::InProgress,
                ..before
            },
        )
    }
}

impl DeleteTimelineFlow {
    /// Prepares the deletion of a timeline: it must be there, nothing may branch off it, and no
    /// other deletion may be at work on it.  From here on it is stopping.
    pub fn prepare(timelines: &mut OrderedMap<TimelineId, Timeline>, id: TimelineId) -> (r: Result<
        (),
        DeleteTimelineError,
    >)
        requires
            old(timelines).wf(),
        ensures
            final(timelines).wf(),
            r is Err ==> final(timelines)@ == old(timelines)@,
            if !old(timelines)@.dom().contains(id) {
                r matches Err(DeleteTimelineError::NotFound)
            } else if children_of(old(timelines).entries@, id).len() > 0 {
                r matches Err(DeleteTimelineError::HasChildren(list)) && list@ == children_of(
                    old(timelines).entries@,
                    id,
                )
            } else if old(timelines)@[id].delete_lock_held {
                r matches Err(DeleteTimelineError::AlreadyInProgress(progress)) && progress == old(
                    timelines,
                )@[id].delete_progress
            } else {
                r is Ok && final(timelines)@ == old(timelines)@.insert(
                    id,
                    Timeline {
                        state: TimelineState::Stopping,
                        delete_lock_held: true,
                        ..old(timelines)@[id]
                    },
                )
            },
    {
        let timeline = match timelines.get(&id) {
            Some(t) => *t,
            None => {
                return Err(DeleteTimelineError::NotFound);
            },
        };
        let children = children(timelines, id);
        if children.len() > 0 {
            return Err(DeleteTimelineError::HasChildren(children));
        }
        if timeline.delete_lock_held {
            return Err(DeleteTimelineError::AlreadyInProgress(timeline.delete_progress));
        }
        timelines.insert(
            id,
            Timeline { state: TimelineState::Stopping, delete_lock_held: true, ..timeline },
        );
        Ok(())
    }

    /// Begins the deletion of a timeline: prepares it, and notes on the timeline that it is in
    /// progress.  Where it was finished before, it is given up and the timeline can be prepared
    /// again.
    pub fn run(timelines: &mut OrderedMap<TimelineId, Timeline>, id: TimelineId) -> (r: Result<
        DeletionStep,
        DeleteTimelineError,
    >)
        requires
            old(timelines).wf(),
        ensures
            final(timelines).wf(),
            if !old(timelines)@.dom().contains(id) {
                &&& r matches Err(DeleteTimelineError::NotFound)
                &&& final(timelines)@ == old(timelines)@
            } else if children_of(old(timelines).entries@, id).len() > 0 {
                &&& r matches Err(DeleteTimelineError::HasChildren(list))
                &&& list@ == children_of(old(timelines).entries@, id)
                &&& final(timelines)@ == old(timelines)@
            } else if old(timelines)@[id].delete_lock_held {
                &&& r matches Err(DeleteTimelineError::AlreadyInProgress(progress))
                &&& progress == old(timelines)@[id].delete_progress
                &&& final(timelines)@ == old(timelines)@
            } else {
                match run_outcome(old(timelines)@[id]) {
                    Ok(after) => {
                        &&& r matches Ok(DeletionStep::StopTasks)
                        &&& final(timelines)@ == old(timelines)@.insert(id, after)
                    },
                    Err(after) => {
                        &&& r matches Err(DeleteTimelineError::Finished(_))
                        &&& final(timelines)@ == old(timelines)@.insert(id, after)
                    },
                }
            },
    {
        match Self::prepare(timelines, id) {
            Ok(()) => {},
            Err(e) => {
                return Err(e);
            },
        }
        let timeline = match timelines.get(&id) {
            Some(t) => *t,
            None => {
                return Err(DeleteTimelineError::NotFound);
            },
        };
        let mut progress = timeline.delete_progress;
        match progress.mark_in_progress() {
            Ok(()) => {
                timelines.insert(id, Timeline { delete_progress: progress, ..timeline });
                assert(timelines@ =~= old(timelines)@.insert(
                    id,
                    run_outcome(old(timelines)@[id])->Ok_0,
                ));
                Ok(DeletionStep::StopTasks)
            },
            Err(e) => {
                timelines.insert(id, Timeline { delete_lock_held: false, ..timeline });
                assert(timelines@ =~= old(timelines)@.insert(
                    id,
                    run_outcome(old(timelines)@[id])->Err_0,
                ));
                Err(DeleteTimelineError::Finished(e))
            },
        }
    }

    /// Goes on with a deletion that a restart has interrupted.  The timeline is put into the
    /// map, so that a request to delete it is not told that it is gone; its ancestor may be
    /// missing and does not matter.  It was marked as deleted before, and has no tasks.
    pub fn resume_deletion(
        timelines: &mut OrderedMap<TimelineId, Timeline>,
        id: TimelineId,
    ) -> (r: DeletionStep)
        requires
            old(timelines).wf(),
        ensures
            final(timelines).wf(),
            final(timelines)@ == old(timelines)@.insert(
                id,
                Timeline {
                    ancestor: None,
                    state: TimelineState::Stopping,
                    delete_lock_held: true,
                    delete_progress: DeleteTimelineFlow::InProgress,
                },
            ),
            r == DeletionStep::DeleteLocal,
    {
        timelines.insert(
            id,
            Timeline {
                ancestor: None,
                state: TimelineState::Stopping,
                delete_lock_held: true,
                delete_progress: DeleteTimelineFlow::InProgress,
            },
        );
        DeletionStep::DeleteLocal
    }
}

/// A deletion that has begun holds the lock of its timeline, by which others are refused; the
/// timeline is stopping and stays where it branches off.
pub proof fn a_begun_deletion_holds_the_lock(before: Timeline)
    requires
        run_outcome(before) is Ok,
    ensures
        run_outcome(before)->Ok_0.delete_lock_held,
        run_outcome(before)->Ok_0.state == TimelineState::Stopping,
        run_outcome(before)->Ok_0.ancestor == before.ancestor,
{
}

/// Gives a deletion up after a step has failed: the timeline stays, as broken where the step
/// ran in the background, and its deletion can be started again.
pub fn give_up(timelines: &mut OrderedMap<TimelineId, Timeline>, id: TimelineId, in_background: bool)
    requires
        old(timelines).wf(),
        old(timelines)@.dom().contains(id),
    ensures
        final(timelines).wf(),
        final(timelines)@ == old(timelines)@.insert(
            id,
            Timeline {
                delete_lock_held: false,
                state: if in_background {
                    TimelineState::Broken
                } else {
                    old(timelines)@[id].state
                },
                ..old(timelines)@[id]
            },
        ),
{
    if let Some(t) = timelines.get(&id) {
        let timeline = *t;
        let state = if in_background {
            TimelineState::Broken
        } else {
            timeline.state
        };
        timelines.insert(id, Timeline { delete_lock_held: false, state, ..timeline });
    }
}

/// Takes a timeline whose files are gone out of the map.  Nothing may branch off it.
pub fn remove_timeline_from_tenant(timelines: &mut OrderedMap<TimelineId, Timeline>, id: TimelineId) -> (r:
    DeleteTimelineFlow)
    requires
        old(timelines).wf(),
        old(timelines)@.dom().contains(id),
        old(timelines)@[id].delete_lock_held,
        children_of(old(timelines).entries@, id).len() == 0,
    ensures
        final(timelines).wf(),
        final(timelines)@ == old(timelines)@.remove(id),
        r == DeleteTimelineFlow::Finished,
{
    timelines.remove(&id);
    DeleteTimelineFlow::Finished
}

/// A timeline is among the children exactly if it branches off.
pub proof fn children_branch_off(
    entries: Seq<(TimelineId, Timeline)>,
    id: TimelineId,
    child: TimelineId,
)
    ensures
        children_of(entries, id).contains(child) <==> exists|i: int|
            0 <= i < entries.len() && (#[trigger] entries[i]).0 == child && entries[i].1.ancestor
                == Some(id),
    decreases entries.len(),
{
    if entries.len() > 0 {
        let front = entries.drop_last();
        children_branch_off(front, id, child);
        let all = children_of(entries, id);
        let before = children_of(front, id);
        let n = entries.len() - 1;
        if before.contains(child) {
            let k = before.index_of(child);
            assert(all[k] == child);
        }
        if exists|i: int|
            0 <= i < entries.len() && (#[trigger] entries[i]).0 == child && entries[i].1.ancestor
                == Some(id) {
            let i = choose|i: int|
                0 <= i < entries.len() && (#[trigger] entries[i]).0 == child && entries[i].1.ancestor
                    == Some(id);
            if i < n {
                assert(front[i] == entries[i]);
            } else {
                assert(all[all.len() - 1] == child);
            }
        }
        if all.contains(child) {
            let k = all.index_of(child);
            if k < before.len() {
                assert(before[k] == child);
                let i = choose|i: int|
                    0 <= i < front.len() && (#[trigger] front[i]).0 == child && front[i].1.ancestor
                        == Some(id);
                assert(entries[i] == front[i]);
            } else {
                assert(entries[n].0 == child);
            }
        }
    }
}

/// The step number in the order of a deletion.
pub open spec fn step_number(step: DeletionStep) -> int {
    match step {
        DeletionStep::StopTasks => 0,
        DeletionStep::MarkDeleted => 1,
        DeletionStep::DeleteLocal => 2,
        DeletionStep::DeleteRemote => 3,
        DeletionStep::LeaveMap => 4,
        DeletionStep::Finished => 5,
    }
}

/// The steps come one after the other and none is left out: files are removed only after the
/// timeline has been marked as deleted in remote storage, and it leaves the map only after
/// its files are gone.
pub proof fn steps_are_in_order(step: DeletionStep)
    ensures
        step != DeletionStep::Finished ==> step_number(step_after(step)) == step_number(step) + 1,
        step_after(step) == step <==> step == DeletionStep::Finished,
{
}

/// Timeline by timeline, in their order, the children of a timeline are those that branch off it.
pub proof fn children_are_listed_in_order(
    a: Seq<(TimelineId, Timeline)>,
    b: Seq<(TimelineId, Timeline)>,
    e: (TimelineId, Timeline),
    id: TimelineId,
)
    ensures
        children_of(a + b, id) == children_of(a, id) + children_of(b, id),
        children_of(seq![e], id) == if e.1.ancestor == Some(id) {
            seq![e.0]
        } else {
            Seq::<TimelineId>::empty()
        },
        children_of(Seq::<(TimelineId, Timeline)>::empty(), id) == Seq::<TimelineId>::empty(),
    decreases b.len(),
{
    reveal_with_fuel(children_of, 2);
    assert(seq![e].drop_last() =~= Seq::<(TimelineId, Timeline)>::empty());
    assert(children_of(seq![e], id) =~= if e.1.ancestor == Some(id) {
            seq![e.0]
        } else {
            Seq::<TimelineId>::empty()
        });
    if b.len() > 0 {
        children_are_listed_in_order(a, b.drop_last(), e, id);
        assert((a + b).drop_last() =~= a + b.drop_last());
        assert((a + b).last() == b.last());
        assert(children_of(a + b, id) =~= children_of(a, id) + children_of(b, id));
    } else {
        assert(a + b =~= a);
        assert(children_of(a, id) + children_of(b, id) =~= children_of(a, id));
    }
}

/// A deletion begins exactly where none has been finished; the timeline stops either way, and
/// nothing but its state, its lock and its progress changes.
pub proof fn finished_deletions_are_not_begun_again(before: Timeline)
    ensures
        run_outcome(before) is Ok <==> before.delete_progress != DeleteTimelineFlow::Finished,
        run_outcome(before) matches Ok(after) ==> after == (Timeline {
            state: TimelineState::Stopping,
            delete_lock_held: true,
            delete_progress: DeleteTimelineFlow::InProgress,
            ..before
        }),
        run_outcome(before) matches Err(after) ==> after == (Timeline {
            state: TimelineState::Stopping,
            ..before
        }),
{
}

/// A deletion marks the timeline as deleted once its tasks have stopped, then deletes the local
/// files, then the remote ones, and takes the timeline out of the map last.
pub proof fn local_files_go_before_remote_ones()
    ensures
        step_after(DeletionStep::StopTasks) == DeletionStep::MarkDeleted,
        step_after(DeletionStep::MarkDeleted) == DeletionStep::DeleteLocal,
        step_after(DeletionStep::DeleteLocal) == DeletionStep::DeleteRemote,
        step_after(DeletionStep::DeleteRemote) == DeletionStep::LeaveMap,
        step_after(DeletionStep::LeaveMap) == DeletionStep::Finished,
{
}

} // verus!
