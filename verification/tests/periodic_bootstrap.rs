//! Seeding and running the hourly materializer over the store.

use chang_core::context::{Context, ContextValue, PeriodicJobsError, TaskError};
use chang_core::periodic::{init, PeriodicJobs};
use chang_core::queue::SchedulingStrategy;
use chang_core::schedule::{schedule_periodic_task, SchedulePeriodicTaskError};
use chang_core::store::{TaskService, TaskStore};
use chang_core::tasks::TaskState;

const T_10_00: i64 = 1417168800;
const T_11_00: i64 = 1417172400;
const T_11_23: i64 = 1417173780;
const T_12_00: i64 = 1417176000;
const T_13_00: i64 = 1417179600;

const PERIODIC_KIND: &str = "chang_schedule_periodic_task";

fn five_minute_jobs() -> PeriodicJobs {
    let mut jobs = PeriodicJobs::new();
    jobs.insert("test_can_insert_task", "0 */5 * * * * *");
    jobs
}

/// Bootstrapping inserts one materializer row, immediately available,
/// scheduled at the top of the current hour.
#[test]
fn can_insert_task() {
    let mut db = TaskStore::new();
    let queue = "bootstrap_queue";
    let now = T_11_23;

    init(&five_minute_jobs(), &mut db, queue, &now);

    let tasks = TaskService::get_tasks_by_kind(&db, PERIODIC_KIND, queue, 1);
    assert!(tasks.first().is_some(), "failed to fetch task");

    let task = tasks.first().unwrap();
    assert_eq!(task.state, TaskState::Available);
    assert_eq!(task.queue.as_deref(), Some(queue));
    assert_eq!(task.scheduled_at, Some(T_11_00));
}

/// With no periodic jobs registered, bootstrapping inserts nothing.
#[test]
fn wont_insert_task_when_periodic_jobs_are_empty() {
    let mut db = TaskStore::new();
    let queue = "bootstrap_queue";
    let now = T_11_23;

    init(&PeriodicJobs::new(), &mut db, queue, &now);

    let tasks = TaskService::get_tasks_by_kind(&db, PERIODIC_KIND, queue, 1);
    assert!(tasks.first().is_none(), "inserted the materializer row");
}

/// With a materializer row already on the queue, bootstrapping leaves it
/// alone.
#[test]
fn wont_insert_task_exists() {
    let mut db = TaskStore::new();
    let queue = "bootstrap_queue";
    let now = T_11_23;

    let existing = chang_core::tasks::Task::builder()
        .kind(PERIODIC_KIND)
        .args(chang_core::json::JsonValue::Null)
        .scheduled_at(&T_10_00)
        .queue(queue)
        .build()
        .unwrap();
    TaskService::insert(&mut db, existing, now);

    init(&five_minute_jobs(), &mut db, queue, &now);

    let tasks = TaskService::get_tasks_by_kind(&db, PERIODIC_KIND, queue, 2);
    assert_eq!(tasks.len(), 1, "bootstrap must not add a second row");
    assert_ne!(tasks.first().unwrap().scheduled_at, Some(T_11_00));
}

/// Bootstrapping twice with identical inputs inserts the row exactly
/// once.
#[test]
fn bootstrap_is_idempotent() {
    let mut db = TaskStore::new();
    let queue = "default";
    let now = T_11_23;

    init(&five_minute_jobs(), &mut db, queue, &now);
    init(&five_minute_jobs(), &mut db, queue, &now);

    assert_eq!(db.len(), 1);
}

/// One materializer pass inserts one task per fire time in the coming
/// hour's slot, plus its own next invocation at the slot's start.
#[test]
fn materializer_expands_the_slot_and_reschedules_itself() {
    let mut db = TaskStore::new();
    let now = T_11_00;

    // The claimed materializer task, as a worker would have claimed it.
    let bootstrap = chang_core::tasks::Task::builder()
        .kind(PERIODIC_KIND)
        .args(chang_core::json::JsonValue::Null)
        .queue("default")
        .build()
        .unwrap();
    let boot_id = TaskService::insert(&mut db, bootstrap, now);
    let claimed =
        TaskService::claim(&mut db, "default", SchedulingStrategy::FCFS, 1, "w", now);
    assert_eq!(claimed.len(), 1);

    let mut jobs = PeriodicJobs::new();
    jobs.insert("every-five-minutes", "0 */5 * * * * *");
    let mut ctx = Context::new();
    ctx.put(ContextValue::Task(claimed.into_iter().next().unwrap()));
    ctx.put(ContextValue::PeriodicJobs(jobs));

    let state = schedule_periodic_task(&ctx, &mut db, now).unwrap();
    assert_eq!(state, TaskState::Completed);

    // Twelve five-minute marks in (12:00, 13:00], then the reschedule row.
    let expanded = TaskService::get_tasks_by_kind(&db, "every-five-minutes", "default", 100);
    assert_eq!(expanded.len(), 12);
    for (i, task) in expanded.iter().enumerate() {
        assert_eq!(task.scheduled_at, Some(T_12_00 + 300 * (i as i64 + 1)));
        assert_eq!(task.state, TaskState::Scheduled);
    }
    let last = expanded.last().unwrap();
    assert_eq!(last.scheduled_at, Some(T_13_00));

    let reschedules = TaskService::get_tasks_by_kind(&db, PERIODIC_KIND, "default", 100);
    // The claimed bootstrap row plus the next self-invocation.
    assert_eq!(reschedules.len(), 2);
    let next = reschedules.iter().find(|t| t.id != boot_id).unwrap();
    assert_eq!(next.scheduled_at, Some(T_12_00));
    assert_eq!(next.state, TaskState::Scheduled);
    assert_eq!(next.priority, i16::MAX);
}

/// The materializer fails exactly when the context lacks what it needs,
/// and then changes nothing.
#[test]
fn materializer_reports_missing_context_values() {
    let mut db = TaskStore::new();

    let empty = Context::new();
    let err = schedule_periodic_task(&empty, &mut db, T_11_00).err().unwrap();
    assert_eq!(err, SchedulePeriodicTaskError::Task(TaskError::NotFound));

    let task = chang_core::tasks::Task::builder()
        .kind(PERIODIC_KIND)
        .args(chang_core::json::JsonValue::Null)
        .build()
        .unwrap();
    TaskService::insert(&mut db, task, T_11_00);
    let claimed = TaskService::claim(&mut db, "default", SchedulingStrategy::FCFS, 1, "w", T_11_00);

    let mut ctx = Context::new();
    ctx.put(ContextValue::Task(claimed.into_iter().next().unwrap()));
    let err = schedule_periodic_task(&ctx, &mut db, T_11_00).err().unwrap();
    assert_eq!(
        err,
        SchedulePeriodicTaskError::PeriodicJobs(PeriodicJobsError::PeriodicJobsNotFound)
    );
    assert_eq!(db.len(), 1);
}
