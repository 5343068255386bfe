//! Finalizing one executed task: the decision half of the worker's
//! claim / execute / finalize cycle.
//!
//! The surrounding process looks the handler up, runs it, and reports here
//! what came of it; this function performs the one store transition that
//! the outcome calls for.

use vstd::prelude::*;
use vstd::string::StringExecFns;

use crate::store::{complete_result, failed_result, TaskService, TaskStore, TaskStoreError};
use crate::tasks::TaskState;

verus! {

/// What became of one dispatched task: no handler was registered for its
/// kind, the handler returned a state, or it failed with an error text.
pub enum HandlerOutcome {
    HandlerMissing,
    Returned(TaskState),
    Failed(String),
}

/// The error recorded when a task's kind has no registered handler.
pub open spec fn handler_missing_message(kind: Seq<char>) -> Seq<char> {
    "handler not found for task with kind "@ + kind
}

/// The error recorded when a handler returns a state other than completed.
pub open spec fn wrong_state_message() -> Seq<char> {
    "handler returned a state other than completed"@
}

/// Applies the finalize policy for one task: a handler that returned
/// `completed` completes the row; a missing handler, an error, or any other
/// returned state records a failure, and the store then decides between
/// retry and discard. A refused transition is reported, never escalated.
pub fn finalize_task(db: &mut TaskStore, task_id: &u128, outcome: HandlerOutcome, now: i64) -> (r:
    Result<(), TaskStoreError>)
    requires
        old(db).wf(),
        0 <= now <= crate::time::MAX_SCHEDULE_SECONDS,
    ensures
        final(db).wf(),
        match outcome {
            HandlerOutcome::HandlerMissing => failed_result(
                old(db)@,
                final(db)@,
                *task_id as int,
                handler_missing_message(old(db)@[*task_id as int].kind),
                now as int,
                r,
            ),
            HandlerOutcome::Returned(state) => {
                if state is Completed {
                    complete_result(old(db)@, final(db)@, *task_id as int, r)
                } else {
                    failed_result(
                        old(db)@,
                        final(db)@,
                        *task_id as int,
                        wrong_state_message(),
                        now as int,
                        r,
                    )
                }
            },
            HandlerOutcome::Failed(msg) => failed_result(
                old(db)@,
                final(db)@,
                *task_id as int,
                msg@,
                now as int,
                r,
            ),
        },
{
    match outcome {
        HandlerOutcome::HandlerMissing => {
            let kind: String = if *task_id < db.tasks.len() as u128 {
                let idx = *task_id as usize;
                db.tasks[idx].kind.clone()
            } else {
                String::new()
            };
            let mut message: String = "handler not found for task with kind ".to_owned();
            message.append(kind.as_str());
            proof {
                if *task_id < old(db)@.len() {
                    assert(old(db)@[*task_id as int].kind == old(db).tasks@[*task_id as int]@.kind);
                }
            }
            TaskService::failed(db, task_id, message.as_str(), now)
        },
        HandlerOutcome::Returned(state) => {
            let completed = match state {
                TaskState::Completed => true,
                _ => false,
            };
            if completed {
                TaskService::complete(db, task_id)
            } else {
                TaskService::failed(
                    db,
                    task_id,
                    "handler returned a state other than completed",
                    now,
                )
            }
        },
        HandlerOutcome::Failed(msg) => TaskService::failed(db, task_id, msg.as_str(), now),
    }
}

} // verus!
