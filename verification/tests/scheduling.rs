//! The materializer's slot arithmetic and cron expansion, on the clock
//! values the scheduler actually sees. Instants are epoch seconds, UTC:
//! 1417172400 is 2014-11-28T11:00:00Z.

use chang_core::json::JsonValue;
use chang_core::periodic::PeriodicJobs;
use chang_core::schedule::{
    get_next_periodic_task_schedule, get_schedule, get_scheduled_tasks, ScheduleSlot,
};
use chang_core::tasks::NewTask;

const T_11_00: i64 = 1417172400;
const T_12_00: i64 = 1417176000;
const T_13_00: i64 = 1417179600;

fn jobs_of(entries: &[(&str, &str)]) -> PeriodicJobs {
    let mut jobs = PeriodicJobs::new();
    for (kind, schedule) in entries {
        jobs.insert(kind, schedule);
    }
    jobs
}

fn expect_task(task: &NewTask, kind: &str, scheduled_at: i64, queue: &str) {
    assert_eq!(task.kind, kind);
    assert_eq!(task.scheduled_at, Some(scheduled_at));
    assert_eq!(task.queue.as_deref(), Some(queue));
    assert!(matches!(task.args, JsonValue::Null));
    assert_eq!(task.max_attempts, 3);
    assert_eq!(task.priority, 100);
    assert!(task.depends_on.is_none());
    assert!(task.dependend_id.is_none());
}

#[test]
fn can_get_schedule() {
    let now = T_11_00;
    let expected = ScheduleSlot { start_time: T_12_00, end_time: T_13_00 };
    let schedule = get_schedule(now);
    assert_eq!(expected, schedule);
}

#[test]
fn can_get_task_schedules() {
    let now = T_11_00;
    let schedule = get_schedule(now);

    let tasks = get_scheduled_tasks(
        schedule,
        &jobs_of(&[("every-five-minutes", "0 */5 * * * * *")]),
        "default",
    );

    assert_eq!(tasks.len(), 12);
    for (i, task) in tasks.iter().enumerate() {
        let expected_at = T_12_00 + 300 * (i as i64 + 1);
        expect_task(task, "every-five-minutes", expected_at, "default");
    }
}

#[test]
fn can_get_task_hourly_schedules() {
    let now = T_11_00;
    let schedule = get_schedule(now);

    let tasks = get_scheduled_tasks(schedule, &jobs_of(&[("hourly", "@hourly")]), "default");

    assert!(!tasks.is_empty());
    expect_task(tasks.first().unwrap(), "hourly", T_13_00, "default");
}

#[test]
fn can_get_task_every_30_minutes_schedules() {
    let now = T_11_00;
    let schedule = get_schedule(now);

    let tasks = get_scheduled_tasks(
        schedule,
        &jobs_of(&[("every-30-minutes", "0 */30 * * * * *")]),
        "default",
    );

    assert_eq!(tasks.len(), 2);
    for (i, task) in tasks.iter().enumerate() {
        let expected_at = T_12_00 + 1800 * (i as i64 + 1);
        expect_task(task, "every-30-minutes", expected_at, "default");
    }
}

#[test]
fn can_get_multiple_tasks_schedules() {
    let now = T_11_00;
    let schedule = get_schedule(now);

    let tasks = get_scheduled_tasks(
        schedule,
        &jobs_of(&[
            ("every-30-minutes", "0 */30 * * * * *"),
            ("every-five-minutes", "0 */5 * * * * *"),
        ]),
        "default",
    );

    assert_eq!(tasks.len(), 14);
    for (i, task) in tasks.iter().take(2).enumerate() {
        let expected_at = T_12_00 + 1800 * (i as i64 + 1);
        expect_task(task, "every-30-minutes", expected_at, "default");
    }
    for (i, task) in tasks.iter().skip(2).enumerate() {
        let expected_at = T_12_00 + 300 * (i as i64 + 1);
        expect_task(task, "every-five-minutes", expected_at, "default");
    }
}

#[test]
fn can_get_next_periodic_task_schedule() {
    let expected = T_12_00;

    let now = T_11_00;
    assert_eq!(expected, get_next_periodic_task_schedule(now));

    let now = 1417172705; // 2014-11-28T11:05:05Z
    assert_eq!(expected, get_next_periodic_task_schedule(now));

    let now = 1417175940; // 2014-11-28T11:59:00Z
    assert_eq!(expected, get_next_periodic_task_schedule(now));
}

#[test]
fn unparseable_cron_contributes_nothing() {
    let schedule = get_schedule(T_11_00);
    let tasks = get_scheduled_tasks(
        schedule,
        &jobs_of(&[("broken", "not a cron expression"), ("hourly", "@hourly")]),
        "default",
    );
    assert_eq!(tasks.len(), 1);
    expect_task(tasks.first().unwrap(), "hourly", T_13_00, "default");
}
