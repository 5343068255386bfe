//! The hourly materializer: expands every periodic job's cron expression
//! into concrete task rows for the next one-hour slot.

use vstd::prelude::*;

use crate::context::{Context, ContextValueView, CurrentTaskError, PeriodicJobsError, TaskError};
use crate::cronexpr::{cron_fires_in, cron_parses, fire_times_through, parse_schedule};
use crate::json::{JsonValue, JsonView};
use crate::periodic::{jobs_wf, periodic_task_kind, periodic_task_kind_str, PeriodicJobs};
use crate::store::{batch_inserted_views, inserted_view, TaskService, TaskStore};
use crate::tasks::{strings_view, NewTask, NewTaskView, Task, TaskState, TaskView};
use crate::time::{next_top_of_hour, next_top_of_hour_at, MAX_SCHEDULE_SECONDS};

verus! {

/// The one-hour window covered by a single materialization pass.
#[derive(Clone, Copy, Debug, PartialEq, Eq, Structural)]
pub struct ScheduleSlot {
    pub start_time: i64,
    pub end_time: i64,
}

/// The views of a list of task specifications.
pub open spec fn new_tasks_view(v: Seq<NewTask>) -> Seq<NewTaskView> {
    Seq::new(
        v.len(),
        |i: int|
            if 0 <= i < v.len() {
                v[i]@
            } else {
                arbitrary()
            },
    )
}

/// The specification of one materialized task: the job's kind, no payload,
/// default priority and attempts, scheduled at the fire time, on the
/// worker's queue.
pub open spec fn periodic_new_task(kind: Seq<char>, at: int, queue: Seq<char>) -> NewTaskView {
    NewTaskView {
        scheduled_at: Option::Some(at),
        max_attempts: 3,
        attempted_by: Seq::empty(),
        tags: Seq::empty(),
        kind: kind,
        args: JsonView::Null,
        priority: 100,
        queue: Option::Some(queue),
        depends_on: Option::None,
        dependend_id: Option::None,
    }
}

/// The tasks one job contributes: one per fire time of its expression in
/// the slot, in fire-time order; none when the expression does not parse.
pub open spec fn job_tasks(
    kind: Seq<char>,
    expr: Seq<char>,
    start: int,
    end: int,
    queue: Seq<char>,
) -> Seq<NewTaskView> {
    if cron_parses(expr) {
        cron_fires_in(expr, start, end).map_values(|t: int| periodic_new_task(kind, t, queue))
    } else {
        Seq::empty()
    }
}

/// The tasks a materialization pass produces: each job's contribution, in
/// the order the jobs are registered.
pub open spec fn scheduled_tasks_spec(
    jobs: Seq<(Seq<char>, Seq<char>)>,
    start: int,
    end: int,
    queue: Seq<char>,
) -> Seq<NewTaskView>
    decreases jobs.len(),
{
    if jobs.len() == 0 {
        Seq::empty()
    } else {
        scheduled_tasks_spec(jobs.drop_last(), start, end, queue) + job_tasks(
            jobs.last().0,
            jobs.last().1,
            start,
            end,
            queue,
        )
    }
}

/// Every materialized task keeps its job's kind and the default attempts,
/// so a well-formed jobs map yields only insertable specifications.
pub proof fn lemma_scheduled_tasks_shape(
    jobs: Seq<(Seq<char>, Seq<char>)>,
    start: int,
    end: int,
    queue: Seq<char>,
)
    ensures
        forall|i: int|
            0 <= i < scheduled_tasks_spec(jobs, start, end, queue).len() ==> (exists|k: int|
                0 <= k < jobs.len() && (#[trigger] scheduled_tasks_spec(jobs, start, end, queue)[i]).kind
                    == jobs[k].0) && scheduled_tasks_spec(jobs, start, end, queue)[i].max_attempts
                == 3,
    decreases jobs.len(),
{
    if jobs.len() > 0 {
        lemma_scheduled_tasks_shape(jobs.drop_last(), start, end, queue);
        let head = scheduled_tasks_spec(jobs.drop_last(), start, end, queue);
        let whole = scheduled_tasks_spec(jobs, start, end, queue);
        assert forall|i: int| 0 <= i < whole.len() implies (exists|k: int|
            0 <= k < jobs.len() && (#[trigger] whole[i]).kind == jobs[k].0) && whole[i].max_attempts
            == 3 by {
            if i < head.len() {
                assert(whole[i] == head[i]);
                let k = choose|k: int|
                    0 <= k < jobs.drop_last().len() && (#[trigger] head[i]).kind == jobs.drop_last()[k].0;
                assert(whole[i].kind == jobs[k].0);
            } else {
                assert(whole[i].kind == jobs.last().0);
                assert(whole[i].kind == jobs[jobs.len() - 1].0);
            }
        }
    }
}

/// The slot the materializer fills when it runs at `start_time`: from the
/// next top of the hour to the one after it.
pub fn get_schedule(start_time: i64) -> (r: ScheduleSlot)
    requires
        0 <= start_time,
        start_time + 7200 <= MAX_SCHEDULE_SECONDS,
    ensures
        r.start_time == next_top_of_hour(start_time as int),
        r.end_time == r.start_time + 3600,
        0 <= r.start_time <= r.end_time <= MAX_SCHEDULE_SECONDS,
{
    let start_next_hour = next_top_of_hour_at(start_time);
    let end_next_hour = start_next_hour + 3600;
    ScheduleSlot { start_time: start_next_hour, end_time: end_next_hour }
}

/// The instant at which the materializer runs again: the next top of the
/// hour, which is exactly the end of the slot it fills now.
pub fn get_next_periodic_task_schedule(now: i64) -> (r: i64)
    requires
        0 <= now,
        now + 3600 <= MAX_SCHEDULE_SECONDS,
    ensures
        r == next_top_of_hour(now as int),
{
    next_top_of_hour_at(now)
}

/// Materializes every job of the map into concrete task specifications for
/// the slot: one task per fire time in `(start_time, end_time]`, in fire
/// order, job by job. A job whose expression does not parse contributes
/// nothing.
#[verifier::loop_isolation(false)]
pub fn get_scheduled_tasks(
    schedule_slot: ScheduleSlot,
    periodic_jobs: &PeriodicJobs,
    queue: &str,
) -> (r: Vec<NewTask>)
    requires
        0 <= schedule_slot.start_time <= schedule_slot.end_time <= MAX_SCHEDULE_SECONDS,
    ensures
        new_tasks_view(r@) == scheduled_tasks_spec(
            periodic_jobs@,
            schedule_slot.start_time as int,
            schedule_slot.end_time as int,
            queue@,
        ),
{
    let ghost start = schedule_slot.start_time as int;
    let ghost end = schedule_slot.end_time as int;
    let jobs = periodic_jobs.entries();
    let mut out: Vec<NewTask> = Vec::new();
    let mut i: usize = 0;
    while i < jobs.len()
        invariant
            i <= jobs@.len(),
            new_tasks_view(out@) == scheduled_tasks_spec(periodic_jobs@.take(i as int), start, end, queue@),
        decreases jobs@.len() - i,
    {
        let ghost done = scheduled_tasks_spec(periodic_jobs@.take(i as int), start, end, queue@);
        let ghost kind_v = periodic_jobs@[i as int].0;
        let ghost expr_v = periodic_jobs@[i as int].1;
        proof {
            assert(periodic_jobs@.take(i as int + 1).drop_last() =~= periodic_jobs@.take(i as int));
            assert(periodic_jobs@.take(i as int + 1).last() == periodic_jobs@[i as int]);
            assert(kind_v == jobs@[i as int].0@);
            assert(expr_v == jobs@[i as int].1@);
        }
        match parse_schedule(jobs[i].1.as_str()) {
            Option::Some(s) => {
                let times = fire_times_through(&s, schedule_slot.start_time, schedule_slot.end_time);
                let ghost fires = cron_fires_in(expr_v, start, end);
                proof {
                    assert(times@.map_values(|t: i64| t as int) == fires);
                    assert(times@.len() == fires.len());
                }
                let mut j: usize = 0;
                while j < times.len()
                    invariant
                        j <= times@.len(),
                        new_tasks_view(out@) == done + job_tasks(kind_v, expr_v, start, end, queue@).take(j as int),
                    decreases times@.len() - j,
                {
                    let task = NewTask {
                        scheduled_at: Option::Some(times[j]),
                        max_attempts: 3,
                        attempted_by: Vec::new(),
                        tags: Vec::new(),
                        kind: jobs[i].0.clone(),
                        args: JsonValue::Null,
                        priority: 100,
                        queue: Option::Some(queue.to_owned()),
                        depends_on: Option::None,
                        dependend_id: Option::None,
                    };
                    proof {
                        assert(task@.attempted_by =~= Seq::<Seq<char>>::empty());
                        assert(task@.tags =~= Seq::<Seq<char>>::empty());
                        assert(fires[j as int] == times@.map_values(|t: i64| t as int)[j as int]);
                        assert(task@ == periodic_new_task(kind_v, times@[j as int] as int, queue@));
                    }
                    let ghost out_before = out@;
                    out.push(task);
                    proof {
                        let jt = job_tasks(kind_v, expr_v, start, end, queue@);
                        let target = done + jt.take(j as int + 1);
                        assert(jt.len() == fires.len());
                        assert(jt[j as int] == periodic_new_task(kind_v, fires[j as int], queue@));
                        assert(out@.len() == done.len() + j + 1);
                        assert forall|m: int| 0 <= m < out@.len() implies new_tasks_view(out@)[m]
                            == target[m] by {
                            if m < done.len() + j {
                                assert(new_tasks_view(out@)[m] == out_before[m]@);
                                assert(new_tasks_view(out_before)[m] == out_before[m]@);
                                assert(new_tasks_view(out_before)[m] == (done + jt.take(
                                    j as int,
                                ))[m]);
                            } else {
                                assert(new_tasks_view(out@)[m] == task@);
                                assert(target[m] == jt[j as int]);
                            }
                        }
                        assert(new_tasks_view(out@) =~= target);
                    }
                    j = j + 1;
                }
                proof {
                    let jt = job_tasks(kind_v, expr_v, start, end, queue@);
                    assert(jt.take(jt.len() as int) =~= jt);
                    assert(new_tasks_view(out@) =~= scheduled_tasks_spec(
                        periodic_jobs@.take(i as int + 1),
                        start,
                        end,
                        queue@,
                    ));
                }
            },
            Option::None => {
                proof {
                    assert(job_tasks(kind_v, expr_v, start, end, queue@) =~= Seq::<NewTaskView>::empty());
                    assert(new_tasks_view(out@) =~= scheduled_tasks_spec(
                        periodic_jobs@.take(i as int + 1),
                        start,
                        end,
                        queue@,
                    ));
                }
            },
        }
        i = i + 1;
    }
    proof {
        assert(periodic_jobs@.take(periodic_jobs@.len() as int) =~= periodic_jobs@);
    }
    out
}

/// Why the materializer could not run: the context lacked the claimed task
/// or the periodic-jobs map.
#[derive(Clone, Copy, Debug, PartialEq, Eq, Structural)]
pub enum SchedulePeriodicTaskError {
    Task(TaskError),
    PeriodicJobs(PeriodicJobsError),
}

/// The claimed task a context carries, if any.
pub open spec fn ctx_task(c: Seq<ContextValueView>) -> Option<TaskView> {
    if exists|i: int| 0 <= i < c.len() && (#[trigger] c[i]) is Task {
        Option::Some((c[choose|i: int| 0 <= i < c.len() && (#[trigger] c[i]) is Task])->Task_0)
    } else {
        Option::None
    }
}

/// The periodic-jobs map a context carries, if any.
pub open spec fn ctx_jobs(c: Seq<ContextValueView>) -> Option<Seq<(Seq<char>, Seq<char>)>> {
    if exists|i: int| 0 <= i < c.len() && (#[trigger] c[i]) is PeriodicJobs {
        Option::Some(
            (c[choose|i: int| 0 <= i < c.len() && (#[trigger] c[i]) is PeriodicJobs])->PeriodicJobs_0,
        )
    } else {
        Option::None
    }
}

/// The queue the materializer works on: the claimed task's, or `default`.
pub open spec fn materializer_queue(t: TaskView) -> Seq<char> {
    match t.queue {
        Option::Some(q) => q,
        Option::None => "default"@,
    }
}

/// The materializer's next self-invocation: the reserved kind, no payload,
/// top priority, scheduled at the next top of the hour.
pub open spec fn reschedule_spec(now: int) -> NewTaskView {
    NewTaskView {
        scheduled_at: Option::Some(next_top_of_hour(now)),
        max_attempts: 3,
        attempted_by: Seq::empty(),
        tags: Seq::empty(),
        kind: periodic_task_kind(),
        args: JsonView::Null,
        priority: i16::MAX as int,
        queue: Option::None,
        depends_on: Option::None,
        dependend_id: Option::None,
    }
}

/// Runs one materialization pass at instant `now`: reads the claimed task
/// and the jobs map from the context, inserts one task per fire time in
/// the coming hour's slot on the claimed task's queue, inserts the next
/// self-invocation at the slot's start, and reports completion. Fails
/// exactly when the context lacks the claimed task or the jobs map, and
/// then changes nothing.
pub fn schedule_periodic_task(ctx: &Context, db: &mut TaskStore, now: i64) -> (r: Result<
    TaskState,
    SchedulePeriodicTaskError,
>)
    requires
        old(db).wf(),
        ctx.wf(),
        forall|i: int|
            0 <= i < ctx@.len() && (#[trigger] ctx@[i]) is PeriodicJobs ==> jobs_wf(
                ctx@[i]->PeriodicJobs_0,
            ),
        0 <= now,
        now + 7200 <= MAX_SCHEDULE_SECONDS,
    ensures
        final(db).wf(),
        match r {
            Result::Ok(state) => {
                let task = ctx_task(ctx@)->0;
                let jobs = ctx_jobs(ctx@)->0;
                let slot_start = next_top_of_hour(now as int);
                let batch = scheduled_tasks_spec(
                    jobs,
                    slot_start,
                    slot_start + 3600,
                    materializer_queue(task),
                );
                &&& state == TaskState::Completed
                &&& ctx_task(ctx@) is Some
                &&& ctx_jobs(ctx@) is Some
                &&& final(db)@ == (old(db)@ + batch_inserted_views(
                    batch,
                    old(db)@.len() as int,
                    now as int,
                )).push(
                    inserted_view(
                        reschedule_spec(now as int),
                        old(db)@.len() + batch.len() as int,
                        now as int,
                    ),
                )
            },
            Result::Err(SchedulePeriodicTaskError::Task(e)) => {
                &&& ctx_task(ctx@) is None
                &&& e == TaskError::NotFound
                &&& final(db)@ == old(db)@
            },
            Result::Err(SchedulePeriodicTaskError::PeriodicJobs(e)) => {
                &&& ctx_task(ctx@) is Some
                &&& ctx_jobs(ctx@) is None
                &&& e == PeriodicJobsError::PeriodicJobsNotFound
                &&& final(db)@ == old(db)@
            },
        },
{
    let task = match Task::from_context(ctx) {
        Result::Ok(t) => t,
        Result::Err(e) => {
            return Result::Err(SchedulePeriodicTaskError::Task(e));
        },
    };
    let periodic_jobs = match PeriodicJobs::from_context(ctx) {
        Result::Ok(j) => j,
        Result::Err(e) => {
            proof {
                let w = choose|i: int|
                    0 <= i < ctx@.len() && #[trigger] ctx@[i] == ContextValueView::Task(task@);
                assert(ctx@[w] is Task);
            }
            return Result::Err(SchedulePeriodicTaskError::PeriodicJobs(e));
        },
    };
    proof {
        let w = choose|i: int|
            0 <= i < ctx@.len() && #[trigger] ctx@[i] == ContextValueView::Task(task@);
        assert(ctx@[w] is Task);
        let c = choose|i: int| 0 <= i < ctx@.len() && (#[trigger] ctx@[i]) is Task;
        assert(crate::context::key_of(ctx@[w]) == crate::context::key_of(ctx@[c]));
        assert(c == w);
        assert(ctx_task(ctx@) == Option::Some(task@));
        let wj = choose|i: int|
            0 <= i < ctx@.len() && #[trigger] ctx@[i] == ContextValueView::PeriodicJobs(
                periodic_jobs@,
            );
        assert(ctx@[wj] is PeriodicJobs);
        let cj = choose|i: int| 0 <= i < ctx@.len() && (#[trigger] ctx@[i]) is PeriodicJobs;
        assert(crate::context::key_of(ctx@[wj]) == crate::context::key_of(ctx@[cj]));
        assert(cj == wj);
        assert(ctx_jobs(ctx@) == Option::Some(periodic_jobs@));
        assert(jobs_wf(periodic_jobs@));
    }
    let queue: String = match task.queue {
        Option::Some(q) => q,
        Option::None => "default".to_owned(),
    };
    proof {
        assert(queue@ == materializer_queue(task@));
    }
    let slot = get_schedule(now);
    let tasks = get_scheduled_tasks(slot, &periodic_jobs, queue.as_str());
    let ghost batch = scheduled_tasks_spec(
        periodic_jobs@,
        next_top_of_hour(now as int),
        next_top_of_hour(now as int) + 3600,
        queue@,
    );
    proof {
        assert(new_tasks_view(tasks@) == batch);
        lemma_scheduled_tasks_shape(
            periodic_jobs@,
            next_top_of_hour(now as int),
            next_top_of_hour(now as int) + 3600,
            queue@,
        );
        assert forall|i: int|
            0 <= i < tasks@.len() implies (#[trigger] tasks@[i]@).kind.len() > 0 && tasks@[i]@.max_attempts
            >= 1 by {
            assert(tasks@[i]@ == new_tasks_view(tasks@)[i]);
            assert(batch[i].kind.len() > 0) by {
                let k = choose|k: int| 0 <= k < periodic_jobs@.len() && (#[trigger] batch[i]).kind
                    == periodic_jobs@[k].0;
            }
        }
    }
    let ghost before = db@;
    if tasks.len() > 0 {
        TaskService::batch_insert(db, tasks, now);
    } else {
        proof {
            assert(new_tasks_view(tasks@).len() == tasks@.len());
            assert(Seq::new(tasks@.len(), |i: int| tasks@[i]@) =~= new_tasks_view(tasks@));
            assert(batch_inserted_views(batch, before.len() as int, now as int) =~= Seq::<
                TaskView,
            >::empty());
            assert(db@ =~= before + batch_inserted_views(batch, before.len() as int, now as int));
        }
    }
    proof {
        assert(Seq::new(0, |i: int| arbitrary::<NewTaskView>()) =~= Seq::<NewTaskView>::empty());
        assert(db@ == before + batch_inserted_views(batch, before.len() as int, now as int));
    }
    let scheduled_at = get_next_periodic_task_schedule(now);
    let kind = periodic_task_kind_str();
    let next_task = NewTask {
        scheduled_at: Option::Some(scheduled_at),
        max_attempts: 3,
        attempted_by: Vec::new(),
        tags: Vec::new(),
        kind,
        args: JsonValue::Null,
        priority: i16::MAX,
        queue: Option::None,
        depends_on: Option::None,
        dependend_id: Option::None,
    };
    proof {
        assert(next_task@.attempted_by =~= Seq::<Seq<char>>::empty());
        assert(next_task@.tags =~= Seq::<Seq<char>>::empty());
        assert(next_task@ == reschedule_spec(now as int));
    }
    TaskService::insert(db, next_task, now);
    Result::Ok(TaskState::Completed)
}

} // verus!
