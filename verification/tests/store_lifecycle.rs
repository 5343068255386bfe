//! The claim / execute / finalize lifecycle over the task store.

use chang_core::json::JsonValue;
use chang_core::queue::SchedulingStrategy;
use chang_core::run::{finalize_task, HandlerOutcome};
use chang_core::store::{TaskService, TaskStore, TaskStoreError};
use chang_core::tasks::{Task, TaskState};

const NOW: i64 = 1417172400; // 2014-11-28T11:00:00Z

fn simple_task_spec() -> chang_core::tasks::NewTask {
    Task::builder()
        .kind("simple_task")
        .args(JsonValue::Object(vec![(
            "value".to_string(),
            JsonValue::Text("Chang".to_string()),
        )]))
        .build()
        .unwrap()
}

fn claim_one(db: &mut TaskStore, label: &str, now: i64) -> Vec<Task> {
    TaskService::claim(db, "default", SchedulingStrategy::FCFS, 1, label, now)
}

/// One worker claims the task, its handler completes, the row completes,
/// after exactly one attempt.
#[test]
fn simple_success_completes_in_one_attempt() {
    let mut db = TaskStore::new();
    let id = TaskService::insert(&mut db, simple_task_spec(), NOW);

    let claimed = claim_one(&mut db, "worker 0 queue(default)", NOW);
    assert_eq!(claimed.len(), 1);
    assert_eq!(claimed[0].id, id);
    assert_eq!(claimed[0].attempt, 1);
    assert_eq!(claimed[0].state, TaskState::Running);

    finalize_task(&mut db, &id, HandlerOutcome::Returned(TaskState::Completed), NOW).unwrap();

    let task = TaskService::get_task(&db, &id).unwrap();
    assert_eq!(task.state, TaskState::Completed);
    assert_eq!(task.attempt, 1);
}

/// A task whose attempts are already used up is discarded by a single
/// failing finalize, with exactly one recorded error.
#[test]
fn discards_tasks_after_too_many_attempts() {
    let mut db = TaskStore::new();
    let id = TaskService::insert(&mut db, simple_task_spec(), NOW);
    TaskService::set_attempt(&mut db, &id, 3).unwrap();

    finalize_task(&mut db, &id, HandlerOutcome::Failed("Test Failed".to_string()), NOW).unwrap();

    let task = TaskService::get_task(&db, &id).unwrap();
    assert_eq!(task.state, TaskState::Discarded);
    assert_eq!(task.errors.len(), 1);
    assert_eq!(task.errors[0].message, "Test Failed");
}

/// A fresh task whose handler errors becomes retryable with its retry
/// pushed into the future and one attempt recorded.
#[test]
fn failes_when_handler_returns_error() {
    let mut db = TaskStore::new();
    let id = TaskService::insert(&mut db, simple_task_spec(), NOW);

    let claimed = claim_one(&mut db, "worker 0 queue(default)", NOW);
    assert_eq!(claimed.len(), 1);

    finalize_task(&mut db, &id, HandlerOutcome::Failed("Test Failed".to_string()), NOW).unwrap();

    let task = TaskService::get_task(&db, &id).unwrap();
    assert_eq!(task.state, TaskState::Retryable);
    assert_eq!(task.attempt, 1);
    // The backoff is fifteen seconds plus one doubling per attempt made:
    // after the first attempt, 15 + 2 seconds.
    assert_eq!(task.scheduled_at, Some(NOW + 17));
    assert_eq!(task.errors.len(), 1);
}

/// A task whose kind has no handler is failed with the fixed message and
/// retried until its attempts run out.
#[test]
fn failes_when_handler_does_not_exist() {
    let mut db = TaskStore::new();
    let spec = Task::builder()
        .kind("no_such_handler")
        .args(JsonValue::Null)
        .build()
        .unwrap();
    let id = TaskService::insert(&mut db, spec, NOW);

    let mut now = NOW;
    for round in 1..=3i64 {
        let claimed = claim_one(&mut db, "worker 0 queue(default)", now);
        assert_eq!(claimed.len(), 1, "round {round}");
        finalize_task(&mut db, &id, HandlerOutcome::HandlerMissing, now).unwrap();
        let task = TaskService::get_task(&db, &id).unwrap();
        if round < 3 {
            assert_eq!(task.state, TaskState::Retryable);
            now = task.scheduled_at.unwrap();
        } else {
            assert_eq!(task.state, TaskState::Discarded);
        }
        assert_eq!(task.errors.len(), round as usize);
        assert!(task.errors[0]
            .message
            .starts_with("handler not found for task with kind "));
    }
}

/// No two claims ever return the same row: the first claim leaves it
/// running, and the second finds nothing.
#[test]
fn unique_claim_across_claimers() {
    let mut db = TaskStore::new();
    TaskService::insert(&mut db, simple_task_spec(), NOW);

    let first = claim_one(&mut db, "a", NOW);
    let second = claim_one(&mut db, "b", NOW);
    assert_eq!(first.len(), 1);
    assert_eq!(second.len(), 0);
}

/// The attempt counter grows by one on each claim and never shrinks.
#[test]
fn attempts_grow_monotonically() {
    let mut db = TaskStore::new();
    let id = TaskService::insert(&mut db, simple_task_spec(), NOW);

    let claimed = claim_one(&mut db, "a", NOW);
    assert_eq!(claimed[0].attempt, 1);
    finalize_task(&mut db, &id, HandlerOutcome::Failed("x".to_string()), NOW).unwrap();
    let retry_at = TaskService::get_task(&db, &id).unwrap().scheduled_at.unwrap();

    let claimed = claim_one(&mut db, "b", retry_at);
    assert_eq!(claimed[0].attempt, 2);
    assert_eq!(
        claimed[0].attempted_by.as_ref().unwrap().as_slice(),
        &["a".to_string(), "b".to_string()]
    );
}

/// Once a row is terminal, neither finalize nor an administrative change
/// moves it again.
#[test]
fn terminal_states_are_stable() {
    let mut db = TaskStore::new();
    let id = TaskService::insert(&mut db, simple_task_spec(), NOW);
    claim_one(&mut db, "a", NOW);
    TaskService::complete(&mut db, &id).unwrap();

    assert_eq!(
        TaskService::failed(&mut db, &id, "late", NOW),
        Err(TaskStoreError::InvalidTransition)
    );
    assert_eq!(
        TaskService::set_state(&mut db, &id, &TaskState::Available),
        Err(TaskStoreError::InvalidTransition)
    );
    // Completing a completed row stays a no-op.
    assert_eq!(TaskService::complete(&mut db, &id), Ok(()));
    assert_eq!(TaskService::get_task(&db, &id).unwrap().state, TaskState::Completed);
}

/// A task is never claimed while its predecessor has not completed.
#[test]
fn dependency_gates_claims() {
    let mut db = TaskStore::new();
    let first = TaskService::insert(&mut db, simple_task_spec(), NOW);
    let mut dependent = simple_task_spec();
    dependent.depends_on = Some(first);
    let second = TaskService::insert(&mut db, dependent, NOW);

    // Both rows are available, but only the predecessor may be claimed.
    let claimed = TaskService::claim(&mut db, "default", SchedulingStrategy::FCFS, 10, "a", NOW);
    assert_eq!(claimed.len(), 1);
    assert_eq!(claimed[0].id, first);

    TaskService::complete(&mut db, &first).unwrap();
    let claimed = TaskService::claim(&mut db, "default", SchedulingStrategy::FCFS, 10, "a", NOW);
    assert_eq!(claimed.len(), 1);
    assert_eq!(claimed[0].id, second);
}

/// Under priority scheduling the highest priority wins; ties fall back to
/// creation order.
#[test]
fn priority_strategy_orders_claims() {
    let mut db = TaskStore::new();
    let mut low = simple_task_spec();
    low.priority = 1;
    let mut high = simple_task_spec();
    high.priority = 500;
    let low_id = TaskService::insert(&mut db, low, NOW);
    let high_id = TaskService::insert(&mut db, high, NOW + 1);

    let claimed =
        TaskService::claim(&mut db, "default", SchedulingStrategy::Priority, 10, "a", NOW + 5);
    assert_eq!(claimed.len(), 2);
    assert_eq!(claimed[0].id, high_id);
    assert_eq!(claimed[1].id, low_id);
}

/// A scheduled task is excluded from claims until its time arrives.
#[test]
fn future_tasks_are_not_claimed() {
    let mut db = TaskStore::new();
    let mut spec = simple_task_spec();
    spec.scheduled_at = Some(NOW + 3600);
    let id = TaskService::insert(&mut db, spec, NOW);
    assert_eq!(TaskService::get_task(&db, &id).unwrap().state, TaskState::Scheduled);

    assert_eq!(claim_one(&mut db, "a", NOW).len(), 0);
    let claimed = claim_one(&mut db, "a", NOW + 3600);
    assert_eq!(claimed.len(), 1);
}

/// The payload a handler sees is exactly the payload the producer
/// supplied, through insert, claim and the context.
#[test]
fn args_round_trip_through_claim_and_context() {
    let mut db = TaskStore::new();
    let spec = simple_task_spec();
    let id = TaskService::insert(&mut db, spec, NOW);
    let claimed = claim_one(&mut db, "a", NOW);

    let mut ctx = chang_core::context::Context::new();
    ctx.put(chang_core::context::ContextValue::Task(claimed.into_iter().next().unwrap()));
    let current = chang_core::context::CurrentTask::from_context(&ctx).unwrap();

    let expected = simple_task_spec().args;
    assert!(chang_core::json::json_eq(&current.0, &expected));
    let stored = TaskService::get_task(&db, &id).unwrap();
    assert!(chang_core::json::json_eq(&stored.args, &expected));
}

/// A claim under first-come first-served returns the eligible prefix in
/// scheduled/creation order.
#[test]
fn fcfs_orders_by_schedule_then_creation() {
    let mut db = TaskStore::new();
    let mut late = simple_task_spec();
    late.scheduled_at = Some(NOW - 10);
    let mut early = simple_task_spec();
    early.scheduled_at = Some(NOW - 100);
    let unscheduled = simple_task_spec();

    let late_id = TaskService::insert(&mut db, late, NOW - 1000);
    let early_id = TaskService::insert(&mut db, early, NOW - 1000);
    let unscheduled_id = TaskService::insert(&mut db, unscheduled, NOW - 500);

    let claimed = TaskService::claim(&mut db, "default", SchedulingStrategy::FCFS, 2, "a", NOW);
    assert_eq!(claimed.len(), 2);
    assert_eq!(claimed[0].id, unscheduled_id);
    assert_eq!(claimed[1].id, early_id);
    // The row left behind is the one that sorts last.
    let rest = TaskService::claim(&mut db, "default", SchedulingStrategy::FCFS, 2, "a", NOW);
    assert_eq!(rest.len(), 1);
    assert_eq!(rest[0].id, late_id);
}

/// An unknown identifier is reported, and nothing changes.
#[test]
fn unknown_ids_are_not_found() {
    let mut db = TaskStore::new();
    let missing: u128 = 42;
    assert_eq!(TaskService::complete(&mut db, &missing), Err(TaskStoreError::NotFound));
    assert_eq!(TaskService::failed(&mut db, &missing, "x", NOW), Err(TaskStoreError::NotFound));
    assert_eq!(
        TaskService::set_state(&mut db, &missing, &TaskState::Cancelled),
        Err(TaskStoreError::NotFound)
    );
    assert_eq!(TaskService::set_attempt(&mut db, &missing, 1), Err(TaskStoreError::NotFound));
    assert!(TaskService::get_task(&db, &missing).is_none());
}

/// Cancelling is allowed from any non-terminal state and is then final.
#[test]
fn cancel_is_reachable_and_terminal() {
    let mut db = TaskStore::new();
    let id = TaskService::insert(&mut db, simple_task_spec(), NOW);
    TaskService::set_state(&mut db, &id, &TaskState::Cancelled).unwrap();
    assert_eq!(TaskService::get_task(&db, &id).unwrap().state, TaskState::Cancelled);
    assert_eq!(
        TaskService::set_state(&mut db, &id, &TaskState::Available),
        Err(TaskStoreError::InvalidTransition)
    );
    assert_eq!(claim_one(&mut db, "a", NOW).len(), 0);
}
