//! How a run of records goes through a Postgres process: the process is launched where there is
//! none, a failed process is taken out of rotation, and the run is then tried once more.
use bytes::Bytes;
use vstd::prelude::*;

use crate::pageserver::apply_neon::ApplyError;
use crate::pageserver::key;
use crate::pageserver::key::Key;
use crate::pageserver::key::RelTag;
use crate::pageserver::walredo;
use crate::pageserver::walredo::PostgresRedoManager;
use crate::pageserver::walredo::RedoError;

verus! {

/// How far a run has come.  `n_attempts` attempts have failed.
#[derive(Clone, Copy, Debug, PartialEq, Eq, Structural)]
pub enum PostgresState {
    /// A process is being launched.
    Launching { rel: RelTag, blknum: u32, n_attempts: u32 },
    /// A process applies the records.
    Applying { rel: RelTag, blknum: u32, n_attempts: u32, pid: u32 },
    Ended,
}

/// What has happened.  `E` is what went wrong outside.
pub enum PostgresEvent<E> {
    /// There is a process: it was launched, or another request was faster to launch one.
    Launched { pid: u32 },
    LaunchFailed(E),
    /// The process has given its answer.
    Applied(Result<Bytes, E>),
}

/// Why a run was not applied.
pub enum PostgresError<E> {
    /// The request is wrong.
    Request(RedoError),
    /// No process could be launched.
    Launch(E),
    /// The process has failed on the last attempt.
    Process(E),
}

/// What has to be done next.
pub enum PostgresAction<E> {
    /// Launch a process, unless there is one by now.
    Launch,
    /// Let the process apply the records to the block of the relation.
    Apply { pid: u32, rel: RelTag, blknum: u32 },
    /// Answer the request.
    Return(Result<Bytes, PostgresError<E>>),
}

impl PostgresState {
    /// No more attempts have failed than are tried again.
    pub open spec fn wf(self) -> bool {
        match self {
            PostgresState::Launching { n_attempts, .. } => n_attempts
                <= walredo::MAX_RETRY_ATTEMPTS,
            PostgresState::Applying { n_attempts, .. } => n_attempts
                <= walredo::MAX_RETRY_ATTEMPTS,
            PostgresState::Ended => true,
        }
    }

    /// Whether an event can come in this state.
    pub open spec fn expects<E>(self, event: PostgresEvent<E>) -> bool {
        match self {
            PostgresState::Launching { .. } => event is Launched || event is LaunchFailed,
            PostgresState::Applying { .. } => event is Applied,
            PostgresState::Ended => false,
        }
    }

    /// How many attempts are still to end, the one under way included.
    pub open spec fn attempts_left(self) -> int {
        match self {
            PostgresState::Launching { n_attempts, .. } => walredo::MAX_RETRY_ATTEMPTS + 1
                - n_attempts,
            PostgresState::Applying { n_attempts, .. } => walredo::MAX_RETRY_ATTEMPTS + 1
                - n_attempts,
            PostgresState::Ended => 0,
        }
    }
}

/// Makes an attempt: with the process in rotation, or with one to be launched.
pub open spec fn attempted<E>(
    manager: PostgresRedoManager,
    rel: RelTag,
    blknum: u32,
    n_attempts: u32,
) -> (PostgresState, PostgresAction<E>) {
    match manager.redo_process {
        Some(pid) => (
            PostgresState::Applying { rel, blknum, n_attempts, pid },
            PostgresAction::Apply { pid, rel, blknum },
        ),
        None => (PostgresState::Launching { rel, blknum, n_attempts }, PostgresAction::Launch),
    }
}

/// How a run begins: there is no attempt for a page that is no block of a relation.
pub open spec fn begun<E>(manager: PostgresRedoManager, key: Key, now: u128) -> (
    PostgresRedoManager,
    (PostgresState, PostgresAction<E>),
) {
    let noted = PostgresRedoManager { last_redo_at: Some(now), ..manager };
    (
        noted,
        match key::rel_block_of(key) {
            Some((rel, blknum)) => attempted(noted, rel, blknum, 0),
            None => (
                PostgresState::Ended,
                PostgresAction::Return(Err(PostgresError::Request(walredo::invalid_target()))),
            ),
        },
    )
}

/// How a run goes on.
pub open spec fn stepped<E>(
    manager: PostgresRedoManager,
    state: PostgresState,
    event: PostgresEvent<E>,
) -> (PostgresRedoManager, (PostgresState, PostgresAction<E>)) {
    match (state, event) {
        (
            PostgresState::Launching { rel, blknum, n_attempts },
            PostgresEvent::Launched { pid },
        ) => {
            let launched = PostgresRedoManager {
                redo_process: Some(
                    match manager.redo_process {
                        Some(current) => current,
                        None => pid,
                    },
                ),
                ..manager
            };
            (launched, attempted(launched, rel, blknum, n_attempts))
        },
        (PostgresState::Launching { .. }, PostgresEvent::LaunchFailed(e)) => (
            manager,
            (PostgresState::Ended, PostgresAction::Return(Err(PostgresError::Launch(e)))),
        ),
        (PostgresState::Applying { .. }, PostgresEvent::Applied(Ok(image))) => (
            manager,
            (PostgresState::Ended, PostgresAction::Return(Ok(image))),
        ),
        (
            PostgresState::Applying { rel, blknum, n_attempts, pid },
            PostgresEvent::Applied(Err(e)),
        ) => {
            let without = PostgresRedoManager {
                redo_process: if manager.redo_process == Some(pid) {
                    None
                } else {
                    manager.redo_process
                },
                ..manager
            };
            if n_attempts == walredo::MAX_RETRY_ATTEMPTS {
                (
                    without,
                    (PostgresState::Ended, PostgresAction::Return(Err(PostgresError::Process(e)))),
                )
            } else {
                (without, attempted(without, rel, blknum, (n_attempts + 1) as u32))
            }
        },
        _ => (
            manager,
            (
                PostgresState::Ended,
                PostgresAction::Return(Err(PostgresError::Request(walredo::invalid_target()))),
            ),
        ),
    }
}

/// Makes an attempt.
fn attempt<E>(manager: &PostgresRedoManager, rel: RelTag, blknum: u32, n_attempts: u32) -> (r: (
    PostgresState,
    PostgresAction<E>,
))
    ensures
        r == attempted::<E>(*manager, rel, blknum, n_attempts),
{
    match manager.redo_process {
        Some(pid) => (
            PostgresState::Applying { rel, blknum, n_attempts, pid },
            PostgresAction::Apply { pid, rel, blknum },
        ),
        None => (PostgresState::Launching { rel, blknum, n_attempts }, PostgresAction::Launch),
    }
}

/// Begins to apply a run of records to a page with a Postgres process.
pub fn apply_batch_postgres<E>(manager: &mut PostgresRedoManager, key: Key, now: u128) -> (r: (
    PostgresState,
    PostgresAction<E>,
))
    ensures
        (*final(manager), r) == begun::<E>(*old(manager), key, now),
        r.0.wf(),
{
    manager.note_request(now);
    match walredo::postgres_target(key) {
        Ok((rel, blknum)) => attempt(manager, rel, blknum, 0),
        Err(e) => (PostgresState::Ended, PostgresAction::Return(Err(PostgresError::Request(e)))),
    }
}

/// Goes on with a run after the last action has ended.  Other requests may have changed which
/// process is in rotation.
pub fn postgres_step<E>(
    manager: &mut PostgresRedoManager,
    state: PostgresState,
    event: PostgresEvent<E>,
) -> (r: (PostgresState, PostgresAction<E>))
    requires
        state.wf(),
        state.expects(event),
    ensures
        (*final(manager), r) == stepped(*old(manager), state, event),
        r.0.wf(),
{
    match (state, event) {
        (
            PostgresState::Launching { rel, blknum, n_attempts },
            PostgresEvent::Launched { pid },
        ) => {
            manager.process_launched(pid);
            attempt(manager, rel, blknum, n_attempts)
        },
        (PostgresState::Launching { .. }, PostgresEvent::LaunchFailed(e)) => (
            PostgresState::Ended,
            PostgresAction::Return(Err(PostgresError::Launch(e))),
        ),
        (PostgresState::Applying { .. }, PostgresEvent::Applied(Ok(image))) => (
            PostgresState::Ended,
            PostgresAction::Return(Ok(image)),
        ),
        (
            PostgresState::Applying { rel, blknum, n_attempts, pid },
            PostgresEvent::Applied(Err(e)),
        ) => {
            manager.process_failed(pid);
            if n_attempts == walredo::MAX_RETRY_ATTEMPTS {
                (PostgresState::Ended, PostgresAction::Return(Err(PostgresError::Process(e))))
            } else {
                attempt(manager, rel, blknum, n_attempts + 1)
            }
        },
        _ => (
            PostgresState::Ended,
            PostgresAction::Return(
                Err(PostgresError::Request(RedoError::Apply(ApplyError::InvalidRecord))),
            ),
        ),
    }
}

/// The steps of a run: for each the process in rotation before it, and what has happened.
pub type Steps<E> = Seq<(PostgresRedoManager, PostgresEvent<E>)>;

/// The state and the action after some steps.
pub open spec fn after_steps<E>(
    first: (PostgresState, PostgresAction<E>),
    steps: Steps<E>,
) -> (PostgresState, PostgresAction<E>)
    decreases steps.len(),
{
    if steps.len() == 0 {
        first
    } else {
        stepped(
            steps.last().0,
            after_steps(first, steps.drop_last()).0,
            steps.last().1,
        ).1
    }
}

/// Whether each event can come when it does.
pub open spec fn in_order<E>(
    first: (PostgresState, PostgresAction<E>),
    steps: Steps<E>,
) -> bool {
    forall|i: int|
        0 <= i < steps.len() ==> after_steps(first, steps.take(i)).0.expects(
            (#[trigger] steps[i]).1,
        )
}

/// How many times a process was asked to apply the records.
pub open spec fn applications<E>(
    first: (PostgresState, PostgresAction<E>),
    steps: Steps<E>,
) -> nat
    decreases steps.len(),
{
    let this: nat = if after_steps(first, steps).1 is Apply {
        1
    } else {
        0
    };
    if steps.len() == 0 {
        this
    } else {
        applications(first, steps.drop_last()) + this
    }
}

/// A page that is no block of a relation goes to no process.
pub proof fn other_pages_are_not_attempted<E>(manager: PostgresRedoManager, key: Key, now: u128)
    requires
        key::rel_block_of(key) is None,
    ensures
        begun::<E>(manager, key, now).1.1 == PostgresAction::Return(
            Err::<Bytes, PostgresError<E>>(PostgresError::Request(walredo::invalid_target())),
        ),
{
}

/// A process that has failed is out of rotation before anything else is done.
pub proof fn failed_processes_are_removed<E>(
    manager: PostgresRedoManager,
    state: PostgresState,
    e: E,
)
    requires
        state is Applying,
    ensures
        stepped(manager, state, PostgresEvent::Applied(Err(e))).0.redo_process != Some(state->pid),
        stepped(manager, state, PostgresEvent::Applied(Err(e))).1.1 matches PostgresAction::Apply {
            pid,
            ..
        } ==> pid != state->pid,
{
}

/// The records are applied at most twice, whatever happens and whatever other requests do.
pub proof fn runs_are_tried_at_most_twice<E>(
    manager: PostgresRedoManager,
    key: Key,
    now: u128,
    steps: Steps<E>,
)
    requires
        in_order(begun::<E>(manager, key, now).1, steps),
    ensures
        applications(begun::<E>(manager, key, now).1, steps) <= 2,
{
    lemma_applications(manager, key, now, steps);
}

/// The attempts that have failed and the one under way are those that were made.
proof fn lemma_applications<E>(
    manager: PostgresRedoManager,
    key: Key,
    now: u128,
    steps: Steps<E>,
)
    requires
        in_order(begun::<E>(manager, key, now).1, steps),
    ensures
        ({
            let first = begun::<E>(manager, key, now).1;
            let n = applications(first, steps);
            let (state, action) = after_steps(first, steps);
            &&& state.wf()
            &&& action is Apply <==> state is Applying
            &&& match state {
                PostgresState::Launching { n_attempts, .. } => n == n_attempts,
                PostgresState::Applying { n_attempts, .. } => n == n_attempts + 1,
                PostgresState::Ended => n <= 2,
            }
        }),
    decreases steps.len(),
{
    let first = begun::<E>(manager, key, now).1;
    if steps.len() > 0 {
        let front = steps.drop_last();
        let n = steps.len() - 1;
        assert(in_order(first, front)) by {
            assert forall|i: int| 0 <= i < front.len() implies after_steps(
                first,
                front.take(i),
            ).0.expects((#[trigger] front[i]).1) by {
                assert(front[i] == steps[i]);
                assert(front.take(i) =~= steps.take(i));
            }
        }
        lemma_applications(manager, key, now, front);
        assert(steps.take(n) =~= front);
        assert(after_steps(first, steps.take(n)).0.expects(steps[n].1));
    }
}

/// A run ends: each answer of a process uses up an attempt, and between two answers there is at
/// most one launch.
pub proof fn runs_end<E>(
    manager: PostgresRedoManager,
    state: PostgresState,
    event: PostgresEvent<E>,
)
    requires
        state.wf(),
        state.expects(event),
    ensures
        ({
            let next = stepped(manager, state, event).1.0;
            &&& 0 <= next.attempts_left() <= state.attempts_left()
            &&& state is Applying ==> next.attempts_left() < state.attempts_left()
            &&& state is Launching ==> next !is Launching
        }),
{
}

/// The first answer that is no failure is handed to the requester, and so is the second answer
/// whatever it is.
pub proof fn the_second_answer_is_final<E>(
    manager: PostgresRedoManager,
    state: PostgresState,
    answer: Result<Bytes, E>,
)
    requires
        state is Applying,
        answer is Ok || state->Applying_n_attempts == 1,
    ensures
        stepped(manager, state, PostgresEvent::Applied(answer)).1.1 == PostgresAction::Return(
            match answer {
                Ok(image) => Ok::<Bytes, PostgresError<E>>(image),
                Err(e) => Err(PostgresError::Process(e)),
            },
        ),
{
}

/// Every relation page is attempted, with the process in rotation where there is one and with a
/// fresh one otherwise, and for the relation and block that the key stands for.
pub proof fn relation_pages_are_attempted<E>(manager: PostgresRedoManager, key: Key, now: u128)
    requires
        key.field1 == 0,
    ensures
        begun::<E>(manager, key, now).0.last_redo_at == Some(now),
        begun::<E>(manager, key, now).0.redo_process == manager.redo_process,
        manager.redo_process is None ==> begun::<E>(manager, key, now).1.1 is Launch,
        manager.redo_process matches Some(process) ==> (begun::<E>(
            manager,
            key,
            now,
        ).1.1 matches PostgresAction::Apply { pid, rel, blknum } && pid == process && rel.spcnode
            == key.field2 && rel.dbnode == key.field3 && rel.relnode == key.field4 && rel.forknum
            == key.field5 && blknum == key.field6),
{
}

/// A freshly launched process takes its place in rotation unless there is one already, and the
/// one in rotation gets the run; nothing is applied where none could be launched.
pub proof fn launched_processes_get_the_run<E>(
    manager: PostgresRedoManager,
    rel: RelTag,
    blknum: u32,
    n_attempts: u32,
    pid: u32,
    e: E,
)
    ensures
        ({
            let state = PostgresState::Launching { rel, blknum, n_attempts };
            let used = match manager.redo_process {
                Some(current) => current,
                None => pid,
            };
            let (after, (next, action)) = stepped(
                manager,
                state,
                PostgresEvent::<E>::Launched { pid },
            );
            let (kept, (ended, failure)) = stepped(manager, state, PostgresEvent::LaunchFailed(e));
            &&& after.redo_process == Some(used)
            &&& after.last_redo_at == manager.last_redo_at
            &&& action == (PostgresAction::<E>::Apply { pid: used, rel, blknum })
            &&& next == (PostgresState::Applying { rel, blknum, n_attempts, pid: used })
            &&& kept == manager
            &&& ended is Ended
            &&& failure == PostgresAction::Return(
                Err::<Bytes, PostgresError<E>>(PostgresError::Launch(e)),
            )
        }),
{
}

/// A run that has failed for the first time is tried once more on the same page, with another
/// process; the manager keeps a process that has replaced the failed one.
pub proof fn first_failures_are_tried_again<E>(
    manager: PostgresRedoManager,
    rel: RelTag,
    blknum: u32,
    pid: u32,
    e: E,
)
    ensures
        ({
            let (after, (next, action)) = stepped(
                manager,
                PostgresState::Applying { rel, blknum, n_attempts: 0, pid },
                PostgresEvent::Applied(Err(e)),
            );
            if manager.redo_process is None || manager.redo_process == Some(pid) {
                &&& after.redo_process is None
                &&& action is Launch
                &&& next == (PostgresState::Launching { rel, blknum, n_attempts: 1 })
            } else {
                &&& after.redo_process == manager.redo_process
                &&& action == (PostgresAction::<E>::Apply {
                    pid: manager.redo_process->0,
                    rel,
                    blknum,
                })
                &&& next == (PostgresState::Applying {
                    rel,
                    blknum,
                    n_attempts: 1,
                    pid: manager.redo_process->0,
                })
            }
        }),
{
}

} // verus!
