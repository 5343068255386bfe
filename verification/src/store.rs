//! The task store: the durable table of task rows and its atomic
//! transitions.
//!
//! The store here is the in-memory model of that table: every operation is
//! the compute half of one SQL-level transition, stated exactly. A runner
//! process owns one store behind a lock; the claim operation hands each row
//! to exactly one caller because the store is accessed exclusively during
//! the call.

use vstd::prelude::*;

use crate::json::JsonView;
use crate::queue::SchedulingStrategy;
use crate::tasks::{
    errors_view, is_terminal, opt_string_view, NewTask, NewTaskView, Task, TaskState, TaskView,
    TaskErrorRecord, strings_view,
};

verus! {

/// The table of task rows. A row's identifier is its position in the table:
/// identifiers are assigned consecutively on insert and rows are never
/// removed.
pub struct TaskStore {
    pub tasks: Vec<Task>,
}

/// The views of all rows of the table, in identifier order.
pub open spec fn tasks_view(v: Seq<Task>) -> Seq<TaskView> {
    Seq::new(v.len(), |i: int| if 0 <= i < v.len() { v[i]@ } else { arbitrary() })
}

impl View for TaskStore {
    type V = Seq<TaskView>;

    open spec fn view(&self) -> Seq<TaskView> {
        tasks_view(self.tasks@)
    }
}

/// Well-formedness of one row within the table.
pub open spec fn wf_row(s: Seq<TaskView>, i: int) -> bool {
    &&& s[i].id == i
    &&& 0 <= s[i].attempt <= s[i].max_attempts
    &&& 1 <= s[i].max_attempts
    &&& s[i].queue is Some
    &&& s[i].kind.len() > 0
}

/// Well-formedness of the whole table: identifiers are the positions, the
/// attempt counter never leaves `0 ..= max_attempts`, every row carries a
/// queue and a non-empty kind.
pub open spec fn store_wf(s: Seq<TaskView>) -> bool {
    forall|i: int| 0 <= i < s.len() ==> #[trigger] wf_row(s, i)
}

impl TaskStore {
    pub open spec fn wf(&self) -> bool {
        store_wf(self@)
    }

    /// An empty table.
    pub fn new() -> (r: TaskStore)
        ensures
            r@ == Seq::<TaskView>::empty(),
            r.wf(),
    {
        let r = TaskStore { tasks: Vec::new() };
        proof {
            assert(r@ =~= Seq::<TaskView>::empty());
        }
        r
    }

    /// How many rows the table holds.
    pub fn len(&self) -> (n: usize)
        ensures
            n == self@.len(),
    {
        self.tasks.len()
    }
}

/// Why a transition was refused: the row does not exist, or its current
/// state does not allow the transition.
#[derive(Clone, Copy, Debug, PartialEq, Eq, Structural)]
pub enum TaskStoreError {
    NotFound,
    InvalidTransition,
}

/// The queue a new row lands in: the one the producer chose, or `default`.
pub open spec fn insert_queue(q: Option<Seq<char>>) -> Seq<char> {
    match q {
        Option::Some(s) => s,
        Option::None => "default"@,
    }
}

/// The state a new row starts in: `scheduled` exactly when its scheduled
/// time lies in the future.
pub open spec fn insert_state(sched: Option<int>, now: int) -> TaskState {
    match sched {
        Option::Some(t) => if t > now {
            TaskState::Scheduled
        } else {
            TaskState::Available
        },
        Option::None => TaskState::Available,
    }
}

/// The row that an insert of `spec` at instant `now` creates, with
/// identifier `id`.
pub open spec fn inserted_view(spec: NewTaskView, id: int, now: int) -> TaskView {
    TaskView {
        id: id,
        state: insert_state(spec.scheduled_at, now),
        scheduled_at: spec.scheduled_at,
        attempt: 0,
        max_attempts: spec.max_attempts,
        attempted_by: Option::Some(spec.attempted_by),
        tags: Option::Some(spec.tags),
        kind: spec.kind,
        args: spec.args,
        priority: spec.priority,
        queue: Option::Some(insert_queue(spec.queue)),
        depends_on: spec.depends_on,
        dependend_id: spec.dependend_id,
        errors: Seq::empty(),
        created_at: now,
        updated_at: now,
    }
}

/// The rows that a batch insert of `specs` at instant `now` appends to a
/// table that already holds `base` rows.
pub open spec fn batch_inserted_views(specs: Seq<NewTaskView>, base: int, now: int) -> Seq<
    TaskView,
> {
    Seq::new(specs.len(), |i: int| inserted_view(specs[i], base + i, now))
}

/// A row matches a kind/queue query when both strings agree.
pub open spec fn matches_kind_queue(t: TaskView, kind: Seq<char>, queue: Seq<char>) -> bool {
    t.kind == kind && t.queue == Option::Some(queue)
}

/// All rows matching a kind/queue query, in identifier order.
pub open spec fn filter_kind_queue(s: Seq<TaskView>, kind: Seq<char>, queue: Seq<char>) -> Seq<
    TaskView,
>
    decreases s.len(),
{
    if s.len() == 0 {
        Seq::empty()
    } else {
        let rest = filter_kind_queue(s.drop_last(), kind, queue);
        if matches_kind_queue(s.last(), kind, queue) {
            rest.push(s.last())
        } else {
            rest
        }
    }
}

/// A kind/queue query never returns more rows than the table holds.
pub proof fn lemma_filter_len(s: Seq<TaskView>, kind: Seq<char>, queue: Seq<char>)
    ensures
        filter_kind_queue(s, kind, queue).len() <= s.len(),
    decreases s.len(),
{
    if s.len() > 0 {
        lemma_filter_len(s.drop_last(), kind, queue);
    }
}

/// Seconds a failed task waits before it may run again: exponential in the
/// attempts made so far, with a fifteen-second floor, capped at the
/// sixteenth doubling.
pub open spec fn backoff_secs(attempt: int) -> int {
    15 + vstd::arithmetic::power2::pow2(
        (if attempt > 16 {
            16int
        } else {
            attempt
        }) as nat,
    ) as int
}

/// The row after a failure was recorded at `now` with message `msg`: the
/// failure is appended to the error list, and the row either retries after
/// the backoff or, with its attempts exhausted, is discarded.
pub open spec fn failed_view(t: TaskView, msg: Seq<char>, now: int) -> TaskView {
    if t.attempt >= t.max_attempts {
        TaskView {
            state: TaskState::Discarded,
            errors: t.errors.push((now, msg)),
            updated_at: now,
            ..t
        }
    } else {
        TaskView {
            state: TaskState::Retryable,
            scheduled_at: Option::Some(now + backoff_secs(t.attempt)),
            errors: t.errors.push((now, msg)),
            updated_at: now,
            ..t
        }
    }
}

/// Which states an administrative transition may move a row to: any state
/// that the lifecycle can reach from the current one. Nothing leaves a
/// terminal state, and nothing re-enters `scheduled`.
pub open spec fn admin_transition_allowed(from: TaskState, to: TaskState) -> bool {
    !is_terminal(from) && !(to is Scheduled)
}

/// The whole effect of one `complete` call on row `id`.
pub open spec fn complete_result(
    pre: Seq<TaskView>,
    post: Seq<TaskView>,
    id: int,
    r: Result<(), TaskStoreError>,
) -> bool {
    match r {
        Result::Ok(()) => {
            &&& 0 <= id < pre.len()
            &&& (pre[id].state is Running && post == pre.update(
                id,
                TaskView { state: TaskState::Completed, ..pre[id] },
            )) || (pre[id].state is Completed && post == pre)
        },
        Result::Err(TaskStoreError::NotFound) => {
            &&& !(0 <= id < pre.len())
            &&& post == pre
        },
        Result::Err(TaskStoreError::InvalidTransition) => {
            &&& 0 <= id < pre.len()
            &&& !(pre[id].state is Running)
            &&& !(pre[id].state is Completed)
            &&& post == pre
        },
    }
}

/// The whole effect of one `failed` call on row `id` with message `msg`.
pub open spec fn failed_result(
    pre: Seq<TaskView>,
    post: Seq<TaskView>,
    id: int,
    msg: Seq<char>,
    now: int,
    r: Result<(), TaskStoreError>,
) -> bool {
    match r {
        Result::Ok(()) => {
            &&& 0 <= id < pre.len()
            &&& !is_terminal(pre[id].state)
            &&& post == pre.update(id, failed_view(pre[id], msg, now))
        },
        Result::Err(TaskStoreError::NotFound) => {
            &&& !(0 <= id < pre.len())
            &&& post == pre
        },
        Result::Err(TaskStoreError::InvalidTransition) => {
            &&& 0 <= id < pre.len()
            &&& is_terminal(pre[id].state)
            &&& post == pre
        },
    }
}

/// The store's operations: the SQL contract of the task table. Each takes
/// the table it operates on, as the original operations take a database
/// handle.
pub struct TaskService;

impl TaskService {
    /// Inserts a new row and returns its identifier. The row starts
    /// `scheduled` exactly when its scheduled time is in the future, else
    /// `available`; a producer that named no queue lands in `default`.
    pub fn insert(db: &mut TaskStore, task: NewTask, now: i64) -> (id: u128)
        requires
            old(db).wf(),
            task@.kind.len() > 0,
            task@.max_attempts >= 1,
        ensures
            final(db).wf(),
            id == old(db)@.len(),
            final(db)@ == old(db)@.push(inserted_view(task@, old(db)@.len() as int, now as int)),
    {
        let id = db.tasks.len() as u128;
        let state = match task.scheduled_at {
            Option::Some(t) => if t > now {
                TaskState::Scheduled
            } else {
                TaskState::Available
            },
            Option::None => TaskState::Available,
        };
        let queue = match task.queue {
            Option::Some(q) => q,
            Option::None => "default".to_owned(),
        };
        let row = Task {
            id,
            state,
            scheduled_at: task.scheduled_at,
            attempt: 0,
            max_attempts: task.max_attempts,
            attempted_by: Option::Some(task.attempted_by),
            tags: Option::Some(task.tags),
            kind: task.kind,
            args: task.args,
            priority: task.priority,
            queue: Option::Some(queue),
            depends_on: task.depends_on,
            dependend_id: task.dependend_id,
            errors: Vec::new(),
            created_at: now,
            updated_at: now,
        };
        db.tasks.push(row);
        proof {
            assert(errors_view(Seq::<TaskErrorRecord>::empty()) =~= Seq::<(int, Seq<char>)>::empty());
            assert(db@ =~= old(db)@.push(inserted_view(task@, old(db)@.len() as int, now as int)));
            assert forall|i: int| 0 <= i < db@.len() implies #[trigger] wf_row(db@, i) by {
                if i < old(db)@.len() {
                    assert(wf_row(old(db)@, i));
                }
            }
        }
        id
    }

    /// Inserts a batch of rows; all of them or none (the model cannot fail
    /// part way). Returns the new identifiers, in order.
    #[verifier::loop_isolation(false)]
    pub fn batch_insert(db: &mut TaskStore, tasks: Vec<NewTask>, now: i64) -> (ids: Vec<u128>)
        requires
            old(db).wf(),
            forall|i: int|
                0 <= i < tasks@.len() ==> (#[trigger] tasks@[i]@).kind.len() > 0
                    && tasks@[i]@.max_attempts >= 1,
        ensures
            final(db).wf(),
            ids@.len() == tasks@.len(),
            forall|i: int| 0 <= i < ids@.len() ==> ids@[i] == old(db)@.len() + i,
            final(db)@ == old(db)@ + batch_inserted_views(
                Seq::new(tasks@.len(), |i: int| tasks@[i]@),
                old(db)@.len() as int,
                now as int,
            ),
    {
        let ghost spec_views = Seq::new(tasks@.len(), |i: int| tasks@[i]@);
        let ghost base = old(db)@.len() as int;
        let mut ids: Vec<u128> = Vec::new();
        let mut rest = tasks;
        let mut i: usize = 0;
        let n = rest.len();
        while i < n
            invariant
                db.wf(),
                n == rest@.len(),
                i <= n,
                forall|j: int|
                    0 <= j < rest@.len() ==> (#[trigger] rest@[j]@).kind.len() > 0
                        && rest@[j]@.max_attempts >= 1,
                spec_views == Seq::new(rest@.len(), |j: int| rest@[j]@),
                ids@.len() == i,
                forall|j: int| 0 <= j < i ==> ids@[j] == base + j,
                db@ == old(db)@ + batch_inserted_views(spec_views.take(i as int), base, now as int),
            decreases n - i,
        {
            let ghost before = db@;
            let task = rest[i].clone();
            assert(task@ == spec_views[i as int]);
            assert(db@.len() == base + i) by {
                assert(batch_inserted_views(spec_views.take(i as int), base, now as int).len()
                    == i);
            }
            let id = Self::insert(db, task, now);
            ids.push(id);
            proof {
                assert(db@ =~= old(db)@ + batch_inserted_views(
                    spec_views.take(i as int + 1),
                    base,
                    now as int,
                ));
            }
            i = i + 1;
        }
        proof {
            assert(spec_views.take(n as int) =~= spec_views);
        }
        ids
    }

    /// Reads one row by identifier.
    pub fn get_task(db: &TaskStore, task_id: &u128) -> (r: Option<Task>)
        ensures
            match r {
                Option::Some(t) => *task_id < db@.len() && t@ == db@[*task_id as int],
                Option::None => *task_id >= db@.len(),
            },
    {
        if *task_id < db.tasks.len() as u128 {
            let idx = *task_id as usize;
            Option::Some(db.tasks[idx].clone())
        } else {
            Option::None
        }
    }

    /// Reads up to `limit` rows with the given kind on the given queue, in
    /// identifier order.
    #[verifier::loop_isolation(false)]
    pub fn get_tasks_by_kind(db: &TaskStore, kind: &str, queue: &str, limit: i64) -> (r: Vec<Task>)
        ensures
            ({
                let all = filter_kind_queue(db@, kind@, queue@);
                let n = if limit < 0 {
                    0int
                } else if limit < all.len() {
                    limit as int
                } else {
                    all.len() as int
                };
                tasks_view(r@) == all.take(n)
            }),
    {
        let ghost all = filter_kind_queue(db@, kind@, queue@);
        let cap: usize = if limit < 0 {
            0
        } else if (limit as u64) <= (usize::MAX as u64) {
            limit as usize
        } else {
            usize::MAX
        };
        let mut out: Vec<Task> = Vec::new();
        let mut i: usize = 0;
        while i < db.tasks.len()
            invariant
                i <= db@.len(),
                out@.len() <= i,
                tasks_view(out@) == ({
                    let f = filter_kind_queue(db@.take(i as int), kind@, queue@);
                    f.take(
                        if (cap as int) < f.len() {
                            cap as int
                        } else {
                            f.len() as int
                        },
                    )
                }),
            decreases db@.len() - i,
        {
            let ghost pre = filter_kind_queue(db@.take(i as int), kind@, queue@);
            let ghost fpre: int = if (cap as int) < pre.len() {
                cap as int
            } else {
                pre.len() as int
            };
            let ghost rowv = db@[i as int];
            proof {
                assert(db@.take(i as int + 1).drop_last() =~= db@.take(i as int));
                assert(db@.take(i as int + 1).last() == rowv);
                assert(rowv == db.tasks@[i as int]@);
            }
            let row = &db.tasks[i];
            let same_kind = str_eq(row.kind.as_str(), kind);
            let same_queue = match &row.queue {
                Option::Some(q) => str_eq(q.as_str(), queue),
                Option::None => false,
            };
            proof {
                assert((same_kind && same_queue) == matches_kind_queue(rowv, kind@, queue@));
            }
            let fits = out.len() < cap;
            if same_kind && same_queue && fits {
                out.push(row.clone());
            }
            proof {
                let post = filter_kind_queue(db@.take(i as int + 1), kind@, queue@);
                let fpost: int = if (cap as int) < post.len() {
                    cap as int
                } else {
                    post.len() as int
                };
                if matches_kind_queue(rowv, kind@, queue@) {
                    assert(post == pre.push(rowv));
                    if fits {
                        assert(pre.take(fpre).len() == fpre);
                        assert(fpre < cap);
                        assert(fpre == pre.len());
                        assert(pre.take(fpre) =~= pre);
                        assert(fpost == pre.len() + 1);
                        assert(post.take(fpost) =~= pre.push(rowv));
                        assert(tasks_view(out@) =~= pre.push(rowv));
                    } else {
                        assert(pre.take(fpre).len() == fpre);
                        assert(fpre == cap);
                        assert(fpost == cap);
                        assert(post.take(fpost) =~= pre.take(fpre));
                    }
                } else {
                    assert(post == pre);
                }
            }
            i = i + 1;
        }
        proof {
            assert(db@.take(db@.len() as int) =~= db@);
            lemma_filter_len(db@, kind@, queue@);
            let n = if limit < 0 {
                0int
            } else if limit < all.len() {
                limit as int
            } else {
                all.len() as int
            };
            let fall: int = if (cap as int) < all.len() {
                cap as int
            } else {
                all.len() as int
            };
            assert(fall == n);
        }
        out
    }

    /// Transitions a `running` row to `completed`; on an already completed
    /// row it does nothing. Any other state refuses the transition.
    pub fn complete(db: &mut TaskStore, task_id: &u128) -> (r: Result<(), TaskStoreError>)
        requires
            old(db).wf(),
        ensures
            final(db).wf(),
            complete_result(old(db)@, final(db)@, *task_id as int, r),
    {
        if *task_id >= db.tasks.len() as u128 {
            return Result::Err(TaskStoreError::NotFound);
        }
        let idx = *task_id as usize;
        match db.tasks[idx].state {
            TaskState::Running => {
                let mut row = db.tasks[idx].clone();
                row.state = TaskState::Completed;
                db.tasks.set(idx, row);
                proof {
                    assert(db@ =~= old(db)@.update(
                        *task_id as int,
                        TaskView { state: TaskState::Completed, ..old(db)@[*task_id as int] },
                    ));
                    assert forall|i: int| 0 <= i < db@.len() implies #[trigger] wf_row(db@, i) by {
                        assert(wf_row(old(db)@, i));
                    }
                }
                Result::Ok(())
            },
            TaskState::Completed => {
                proof {
                    assert(db@ =~= old(db)@);
                }
                Result::Ok(())
            },
            _ => Result::Err(TaskStoreError::InvalidTransition),
        }
    }

    /// Records a failure on a non-terminal row: appends the error, and
    /// either schedules a retry after the backoff or, with the attempts
    /// exhausted, discards the row.
    pub fn failed(db: &mut TaskStore, task_id: &u128, error: &str, now: i64) -> (r: Result<
        (),
        TaskStoreError,
    >)
        requires
            old(db).wf(),
            0 <= now <= crate::time::MAX_SCHEDULE_SECONDS,
        ensures
            final(db).wf(),
            failed_result(old(db)@, final(db)@, *task_id as int, error@, now as int, r),
    {
        if *task_id >= db.tasks.len() as u128 {
            return Result::Err(TaskStoreError::NotFound);
        }
        let idx = *task_id as usize;
        match db.tasks[idx].state {
            TaskState::Completed => {
                return Result::Err(TaskStoreError::InvalidTransition);
            },
            TaskState::Cancelled => {
                return Result::Err(TaskStoreError::InvalidTransition);
            },
            TaskState::Discarded => {
                return Result::Err(TaskStoreError::InvalidTransition);
            },
            _ => {},
        }
        proof {
            assert(wf_row(old(db)@, *task_id as int));
            vstd::arithmetic::power2::lemma2_to64();
        }
        let mut row = db.tasks[idx].clone();
        row.errors.push(TaskErrorRecord { at: now, message: error.to_owned() });
        if row.attempt >= row.max_attempts {
            row.state = TaskState::Discarded;
        } else {
            row.state = TaskState::Retryable;
            let exponent: i16 = if row.attempt > 16 {
                16
            } else {
                row.attempt
            };
            let mut delay: i64 = 1;
            let mut k: i16 = 0;
            while k < exponent
                invariant
                    0 <= k <= exponent <= 16,
                    delay == vstd::arithmetic::power2::pow2(k as nat),
                decreases exponent - k,
            {
                proof {
                    vstd::arithmetic::power2::lemma_pow2_unfold(k as nat + 1);
                    vstd::arithmetic::power2::lemma2_to64();
                    vstd::arithmetic::power2::lemma_pow2_strictly_increases(
                        k as nat,
                        16nat,
                    );
                }
                delay = delay * 2;
                k = k + 1;
            }
            proof {
                vstd::arithmetic::power2::lemma2_to64();
                if (exponent as nat) < 16 {
                    vstd::arithmetic::power2::lemma_pow2_strictly_increases(
                        exponent as nat,
                        16nat,
                    );
                }
            }
            row.scheduled_at = Option::Some(now + 15 + delay);
        }
        row.updated_at = now;
        proof {
            assert(errors_view(row.errors@) =~= old(db)@[*task_id as int].errors.push(
                (now as int, error@),
            ));
        }
        db.tasks.set(idx, row);
        proof {
            assert(db@ =~= old(db)@.update(
                *task_id as int,
                failed_view(old(db)@[*task_id as int], error@, now as int),
            ));
            assert forall|i: int| 0 <= i < db@.len() implies #[trigger] wf_row(db@, i) by {
                assert(wf_row(old(db)@, i));
            }
        }
        Result::Ok(())
    }

    /// Administrative transition: moves a row to any state the lifecycle
    /// can reach from its current one. Nothing leaves a terminal state.
    pub fn set_state(db: &mut TaskStore, task_id: &u128, state: &TaskState) -> (r: Result<
        (),
        TaskStoreError,
    >)
        requires
            old(db).wf(),
        ensures
            final(db).wf(),
            match r {
                Result::Ok(()) => {
                    &&& *task_id < old(db)@.len()
                    &&& admin_transition_allowed(old(db)@[*task_id as int].state, *state)
                    &&& final(db)@ == old(db)@.update(
                        *task_id as int,
                        TaskView { state: *state, ..old(db)@[*task_id as int] },
                    )
                },
                Result::Err(TaskStoreError::NotFound) => {
                    &&& *task_id >= old(db)@.len()
                    &&& final(db)@ == old(db)@
                },
                Result::Err(TaskStoreError::InvalidTransition) => {
                    &&& *task_id < old(db)@.len()
                    &&& !admin_transition_allowed(old(db)@[*task_id as int].state, *state)
                    &&& final(db)@ == old(db)@
                },
            },
    {
        if *task_id >= db.tasks.len() as u128 {
            return Result::Err(TaskStoreError::NotFound);
        }
        let idx = *task_id as usize;
        let from_terminal = match db.tasks[idx].state {
            TaskState::Completed => true,
            TaskState::Cancelled => true,
            TaskState::Discarded => true,
            _ => false,
        };
        let to_scheduled = match state {
            TaskState::Scheduled => true,
            _ => false,
        };
        if from_terminal || to_scheduled {
            return Result::Err(TaskStoreError::InvalidTransition);
        }
        let mut row = db.tasks[idx].clone();
        row.state = *state;
        db.tasks.set(idx, row);
        proof {
            assert(db@ =~= old(db)@.update(
                *task_id as int,
                TaskView { state: *state, ..old(db)@[*task_id as int] },
            ));
            assert forall|i: int| 0 <= i < db@.len() implies #[trigger] wf_row(db@, i) by {
                assert(wf_row(old(db)@, i));
            }
        }
        Result::Ok(())
    }

    /// Administrative edit of the attempt counter, as an operator editing
    /// the row directly would. The counter stays within `0 ..= max_attempts`.
    pub fn set_attempt(db: &mut TaskStore, task_id: &u128, attempt: i16) -> (r: Result<
        (),
        TaskStoreError,
    >)
        requires
            old(db).wf(),
        ensures
            final(db).wf(),
            match r {
                Result::Ok(()) => {
                    &&& *task_id < old(db)@.len()
                    &&& 0 <= attempt <= old(db)@[*task_id as int].max_attempts
                    &&& final(db)@ == old(db)@.update(
                        *task_id as int,
                        TaskView { attempt: attempt as int, ..old(db)@[*task_id as int] },
                    )
                },
                Result::Err(TaskStoreError::NotFound) => {
                    &&& *task_id >= old(db)@.len()
                    &&& final(db)@ == old(db)@
                },
                Result::Err(TaskStoreError::InvalidTransition) => {
                    &&& *task_id < old(db)@.len()
                    &&& !(0 <= attempt <= old(db)@[*task_id as int].max_attempts)
                    &&& final(db)@ == old(db)@
                },
            },
    {
        if *task_id >= db.tasks.len() as u128 {
            return Result::Err(TaskStoreError::NotFound);
        }
        let idx = *task_id as usize;
        if attempt < 0 || attempt > db.tasks[idx].max_attempts {
            return Result::Err(TaskStoreError::InvalidTransition);
        }
        let mut row = db.tasks[idx].clone();
        row.attempt = attempt;
        db.tasks.set(idx, row);
        proof {
            assert(db@ =~= old(db)@.update(
                *task_id as int,
                TaskView { attempt: attempt as int, ..old(db)@[*task_id as int] },
            ));
            assert forall|i: int| 0 <= i < db@.len() implies #[trigger] wf_row(db@, i) by {
                assert(wf_row(old(db)@, i));
            }
        }
        Result::Ok(())
    }
}

/// Whether row `i` may be claimed from `queue` at instant `now`: it is
/// waiting (available, or scheduled / retryable with its scheduled time
/// reached), its scheduled time does not lie in the future, it sits on the
/// queue, it has attempts left, and its predecessor, if any, has completed.
pub open spec fn eligible(s: Seq<TaskView>, i: int, queue: Seq<char>, now: int) -> bool {
    &&& 0 <= i < s.len()
    &&& (s[i].state is Available || s[i].state is Scheduled || s[i].state is Retryable)
    &&& (s[i].scheduled_at matches Option::Some(t) ==> t <= now)
    &&& s[i].queue == Option::Some(queue)
    &&& s[i].attempt < s[i].max_attempts
    &&& (s[i].depends_on matches Option::Some(d) ==> 0 <= d < s.len() && s[d].state is Completed)
}

/// The scheduled-time component of the claim order: rows without a
/// scheduled time come first, the rest in time order.
pub open spec fn sched_key(t: TaskView) -> (int, int) {
    match t.scheduled_at {
        Option::Some(s) => (1int, s),
        Option::None => (0int, 0int),
    }
}

/// The claim order: under `Priority` higher priority wins first; then rows
/// are taken by scheduled time (none first), creation time, and identifier.
/// A strict total order on rows with distinct identifiers.
pub open spec fn claim_precedes(strategy: SchedulingStrategy, a: TaskView, b: TaskView) -> bool {
    if strategy is Priority && a.priority != b.priority {
        a.priority > b.priority
    } else if sched_key(a).0 != sched_key(b).0 {
        sched_key(a).0 < sched_key(b).0
    } else if sched_key(a).1 != sched_key(b).1 {
        sched_key(a).1 < sched_key(b).1
    } else if a.created_at != b.created_at {
        a.created_at < b.created_at
    } else {
        a.id < b.id
    }
}

/// The row as a successful claim leaves it: running, one more attempt,
/// the claimer's label appended, touched at `now`.
pub open spec fn claimed_view(t: TaskView, label: Seq<char>, now: int) -> TaskView {
    TaskView {
        state: TaskState::Running,
        attempt: t.attempt + 1,
        attempted_by: Option::Some(
            match t.attempted_by {
                Option::Some(l) => l.push(label),
                Option::None => seq![label],
            },
        ),
        updated_at: now,
        ..t
    }
}

/// Whether some returned row carries identifier `j`.
pub open spec fn claimed_ids_contain(ret: Seq<TaskView>, j: int) -> bool {
    exists|k: int| 0 <= k < ret.len() && ret[k].id == j
}

/// The whole effect of one claim call: every returned row was eligible and
/// is now running with the caller's label; no row is returned twice; every
/// other row is untouched; fewer rows than the limit are returned only when
/// every eligible row was claimed; and the returned rows are the first of
/// the eligible set in the claim order.
pub open spec fn claim_post(
    pre: Seq<TaskView>,
    post: Seq<TaskView>,
    ret: Seq<TaskView>,
    queue: Seq<char>,
    strategy: SchedulingStrategy,
    limit: int,
    label: Seq<char>,
    now: int,
) -> bool {
    let lim = if limit < 0 {
        0int
    } else {
        limit
    };
    &&& post.len() == pre.len()
    &&& ret.len() <= lim
    &&& forall|k: int|
        0 <= k < ret.len() ==> eligible(pre, (#[trigger] ret[k]).id, queue, now) && ret[k]
            == claimed_view(pre[ret[k].id], label, now) && post[ret[k].id] == ret[k]
    &&& forall|k1: int, k2: int| 0 <= k1 < k2 < ret.len() ==> ret[k1].id != ret[k2].id
    &&& forall|j: int|
        0 <= j < pre.len() && !claimed_ids_contain(ret, j) ==> post[j] == #[trigger] pre[j]
    &&& (ret.len() < lim ==> forall|j: int|
        0 <= j < pre.len() && #[trigger] eligible(pre, j, queue, now) ==> claimed_ids_contain(
            ret,
            j,
        ))
    &&& forall|k1: int, k2: int|
        0 <= k1 < k2 < ret.len() ==> claim_precedes(
            strategy,
            pre[(#[trigger] ret[k1]).id],
            pre[(#[trigger] ret[k2]).id],
        )
    &&& forall|k: int, j: int|
        0 <= k < ret.len() && 0 <= j < pre.len() && #[trigger] eligible(pre, j, queue, now)
            && !claimed_ids_contain(ret, j) ==> claim_precedes(
            strategy,
            pre[(#[trigger] ret[k]).id],
            pre[j],
        )
}

/// Decides the claim order between two rows.
fn precedes(a: &Task, b: &Task, strategy: SchedulingStrategy) -> (r: bool)
    ensures
        r == claim_precedes(strategy, a@, b@),
{
    let by_priority = match strategy {
        SchedulingStrategy::Priority => true,
        SchedulingStrategy::FCFS => false,
    };
    if by_priority && a.priority != b.priority {
        return a.priority > b.priority;
    }
    let (fa, va): (i64, i64) = match a.scheduled_at {
        Option::Some(s) => (1, s),
        Option::None => (0, 0),
    };
    let (fb, vb): (i64, i64) = match b.scheduled_at {
        Option::Some(s) => (1, s),
        Option::None => (0, 0),
    };
    if fa != fb {
        return fa < fb;
    }
    if va != vb {
        return va < vb;
    }
    if a.created_at != b.created_at {
        return a.created_at < b.created_at;
    }
    a.id < b.id
}

impl TaskService {
    /// Atomically claims up to `limit` eligible rows from `queue` for the
    /// worker called `label`: the first of the eligible set in the claim
    /// order move to `running` with one more attempt, and are returned in
    /// that order. Rows it does not return it does not touch, so no two
    /// claimers ever hold the same row.
    #[verifier::loop_isolation(false)]
    #[verifier::rlimit(60)]
    pub fn claim(
        db: &mut TaskStore,
        queue: &str,
        strategy: SchedulingStrategy,
        limit: i64,
        label: &str,
        now: i64,
    ) -> (r: Vec<Task>)
        requires
            old(db).wf(),
        ensures
            final(db).wf(),
            claim_post(
                old(db)@,
                final(db)@,
                tasks_view(r@),
                queue@,
                strategy,
                limit as int,
                label@,
                now as int,
            ),
    {
        let ghost pre = old(db)@;
        let cap: usize = if limit < 0 {
            0
        } else if (limit as u64) <= (usize::MAX as u64) {
            limit as usize
        } else {
            usize::MAX
        };
        let total = db.tasks.len();

        // Gather the eligible row identifiers, in identifier order.
        let mut elig: Vec<usize> = Vec::new();
        let mut i: usize = 0;
        while i < total
            invariant
                i <= total,
                elig@.len() <= i,
                forall|m: int|
                    0 <= m < elig@.len() ==> (#[trigger] elig@[m]) < i && eligible(
                        pre,
                        elig@[m] as int,
                        queue@,
                        now as int,
                    ),
                forall|m1: int, m2: int|
                    0 <= m1 < m2 < elig@.len() ==> elig@[m1] < elig@[m2],
                forall|j: int|
                    0 <= j < i && #[trigger] eligible(pre, j, queue@, now as int) ==> exists|m: int|
                        0 <= m < elig@.len() && elig@[m] == j,
            decreases total - i,
        {
            let row = &db.tasks[i];
            let state_ok = match row.state {
                TaskState::Available => true,
                TaskState::Scheduled => true,
                TaskState::Retryable => true,
                _ => false,
            };
            let sched_ok = match row.scheduled_at {
                Option::Some(t) => t <= now,
                Option::None => true,
            };
            let queue_ok = match &row.queue {
                Option::Some(q) => str_eq(q.as_str(), queue),
                Option::None => false,
            };
            let attempts_ok = row.attempt < row.max_attempts;
            let dep_ok = match row.depends_on {
                Option::Some(d) => {
                    if d < total as u128 {
                        let di = d as usize;
                        match db.tasks[di].state {
                            TaskState::Completed => true,
                            _ => false,
                        }
                    } else {
                        false
                    }
                },
                Option::None => true,
            };
            proof {
                assert(pre[i as int] == db.tasks@[i as int]@);
                assert((state_ok && sched_ok && queue_ok && attempts_ok && dep_ok) == eligible(
                    pre,
                    i as int,
                    queue@,
                    now as int,
                ));
            }
            let ghost elig_before = elig@;
            let take_it = state_ok && sched_ok && queue_ok && attempts_ok && dep_ok;
            if take_it {
                elig.push(i);
            }
            proof {
                assert forall|j: int|
                    0 <= j < i + 1 && #[trigger] eligible(pre, j, queue@, now as int)
                        implies exists|m: int| 0 <= m < elig@.len() && elig@[m] == j by {
                    if j == i {
                        assert(take_it);
                        assert(elig@[elig@.len() - 1] == j);
                    } else {
                        let m = choose|m: int|
                            0 <= m < elig_before.len() && elig_before[m] == j;
                        assert(elig@[m] == j);
                    }
                }
            }
            i = i + 1;
        }

        // Order the first `cap` of them by the claim order: repeatedly move
        // the least remaining entry to the front.
        let mut k: usize = 0;
        while k < cap && k < elig.len()
            invariant
                k <= elig@.len(),
                elig@.len() <= total,
                forall|m: int|
                    0 <= m < elig@.len() ==> (#[trigger] elig@[m]) < total && eligible(
                        pre,
                        elig@[m] as int,
                        queue@,
                        now as int,
                    ),
                forall|m1: int, m2: int|
                    0 <= m1 < m2 < elig@.len() ==> elig@[m1] != elig@[m2],
                forall|j: int|
                    0 <= j < pre.len() && #[trigger] eligible(pre, j, queue@, now as int)
                        ==> exists|m: int| 0 <= m < elig@.len() && elig@[m] == j,
                forall|a: int, b: int|
                    0 <= a < b < k ==> claim_precedes(
                        strategy,
                        pre[elig@[a] as int],
                        pre[elig@[b] as int],
                    ),
                forall|a: int, b: int|
                    0 <= a < k <= b < elig@.len() ==> claim_precedes(
                        strategy,
                        pre[elig@[a] as int],
                        pre[elig@[b] as int],
                    ),
            decreases elig@.len() - k,
        {
            let mut m: usize = k;
            let mut j: usize = k + 1;
            while j < elig.len()
                invariant
                    k <= m < j <= elig@.len(),
                    forall|t: int|
                        k <= t < j ==> m == t || claim_precedes(
                            strategy,
                            pre[elig@[m as int] as int],
                            pre[(#[trigger] elig@[t]) as int],
                        ),
                decreases elig@.len() - j,
            {
                proof {
                    assert(wf_row(pre, elig@[j as int] as int));
                    assert(wf_row(pre, elig@[m as int] as int));
                }
                if precedes(&db.tasks[elig[j]], &db.tasks[elig[m]], strategy) {
                    m = j;
                } else {
                    proof {
                        assert(pre[elig@[j as int] as int].id == elig@[j as int] as int);
                        assert(pre[elig@[m as int] as int].id == elig@[m as int] as int);
                    }
                }
                j = j + 1;
            }
            let ghost before_swap = elig@;
            let at_k = elig[k];
            let at_m = elig[m];
            elig.set(k, at_m);
            elig.set(m, at_k);
            proof {
                assert forall|j: int|
                    0 <= j < pre.len() && #[trigger] eligible(pre, j, queue@, now as int)
                        implies exists|mm: int| 0 <= mm < elig@.len() && elig@[mm] == j by {
                    let m0 = choose|t: int|
                        0 <= t < before_swap.len() && before_swap[t] == j;
                    if m0 == k as int {
                        assert(elig@[m as int] == j);
                    } else if m0 == m as int {
                        assert(elig@[k as int] == j);
                    } else {
                        assert(elig@[m0] == j);
                    }
                }
            }
            k = k + 1;
        }

        // Claim the selected rows, in order.
        let take_n: usize = if cap < elig.len() {
            cap
        } else {
            elig.len()
        };
        let mut out: Vec<Task> = Vec::new();
        let mut c: usize = 0;
        while c < take_n
            invariant
                c <= take_n,
                take_n <= elig@.len(),
                take_n <= cap,
                db@.len() == pre.len(),
                db.wf(),
                out@.len() == c,
                forall|m: int|
                    0 <= m < c ==> db@[(#[trigger] elig@[m]) as int] == claimed_view(
                        pre[elig@[m] as int],
                        label@,
                        now as int,
                    ),
                forall|m: int|
                    0 <= m < c ==> (#[trigger] out@[m])@ == claimed_view(
                        pre[elig@[m] as int],
                        label@,
                        now as int,
                    ),
                forall|j: int|
                    0 <= j < pre.len() && (forall|m: int| 0 <= m < c ==> elig@[m] != j)
                        ==> db@[j] == pre[j],
            decreases take_n - c,
        {
            let id = elig[c];
            proof {
                assert(eligible(pre, id as int, queue@, now as int));
                assert(wf_row(pre, id as int));
                assert(db@[id as int] == pre[id as int]) by {
                    assert(forall|m: int| 0 <= m < c ==> elig@[m] != id as int);
                }
                assert(db.tasks@[id as int]@ == db@[id as int]);
            }
            let mut row = db.tasks[id].clone();
            row.state = TaskState::Running;
            row.attempt = row.attempt + 1;
            let by = row.attempted_by;
            row.attempted_by = Option::None;
            let mut nb = match by {
                Option::Some(l) => l,
                Option::None => Vec::new(),
            };
            let ghost nb_before = nb@;
            nb.push(label.to_owned());
            proof {
                match pre[id as int].attempted_by {
                    Option::Some(l) => {
                        assert(strings_view(nb@) =~= l.push(label@));
                    },
                    Option::None => {
                        assert(strings_view(nb@) =~= seq![label@]);
                    },
                }
            }
            row.attempted_by = Option::Some(nb);
            row.updated_at = now;
            proof {
                assert(row@ == claimed_view(pre[id as int], label@, now as int));
            }
            out.push(row.clone());
            db.tasks.set(id, row);
            proof {
                assert forall|jj: int|
                    0 <= jj < pre.len() && (forall|m: int| 0 <= m < c + 1 ==> elig@[m] != jj)
                        implies db@[jj] == pre[jj] by {
                    assert(db@[jj] == db.tasks@[jj]@);
                }
                assert forall|ii: int| 0 <= ii < db@.len() implies #[trigger] wf_row(db@, ii) by {
                    assert(wf_row(pre, ii));
                }
            }
            c = c + 1;
        }

        // The returned rows satisfy the whole claim contract.
        proof {
            let ret = tasks_view(out@);
            let lim: int = if (limit as int) < 0 {
                0int
            } else {
                limit as int
            };
            assert(ret.len() <= lim);
            assert forall|kk: int| 0 <= kk < ret.len() implies eligible(
                pre,
                (#[trigger] ret[kk]).id,
                queue@,
                now as int,
            ) && ret[kk] == claimed_view(pre[ret[kk].id], label@, now as int) && final(db)@[
                ret[kk].id
            ] == ret[kk] by {
                assert(wf_row(pre, elig@[kk] as int));
                assert(ret[kk] == claimed_view(pre[elig@[kk] as int], label@, now as int));
                assert(ret[kk].id == elig@[kk] as int);
            }
            assert forall|k1: int, k2: int| 0 <= k1 < k2 < ret.len() implies (#[trigger] ret[k1]).id
                != (#[trigger] ret[k2]).id by {
                assert(wf_row(pre, elig@[k1] as int));
                assert(wf_row(pre, elig@[k2] as int));
                assert(ret[k1].id == elig@[k1] as int);
                assert(ret[k2].id == elig@[k2] as int);
            }
            assert forall|j: int| 0 <= j < pre.len() && !claimed_ids_contain(ret, j)
                implies final(db)@[j] == #[trigger] pre[j] by {
                assert forall|m: int| 0 <= m < take_n implies elig@[m] != j by {
                    assert(wf_row(pre, elig@[m] as int));
                    assert(ret[m].id == elig@[m] as int);
                }
            }
            if ret.len() < lim {
                assert(take_n == elig@.len());
                assert forall|j: int|
                    0 <= j < pre.len() && #[trigger] eligible(pre, j, queue@, now as int)
                        implies claimed_ids_contain(ret, j) by {
                    let m = choose|m: int| 0 <= m < elig@.len() && elig@[m] == j;
                    assert(wf_row(pre, elig@[m] as int));
                    assert(ret[m].id == elig@[m] as int);
                }
            }
            assert forall|k1: int, k2: int| 0 <= k1 < k2 < ret.len() implies claim_precedes(
                strategy,
                pre[(#[trigger] ret[k1]).id],
                pre[(#[trigger] ret[k2]).id],
            ) by {
                assert(wf_row(pre, elig@[k1] as int));
                assert(wf_row(pre, elig@[k2] as int));
                assert(ret[k1].id == elig@[k1] as int);
                assert(ret[k2].id == elig@[k2] as int);
            }
            assert forall|kk: int, j: int|
                0 <= kk < ret.len() && 0 <= j < pre.len() && #[trigger] eligible(
                    pre,
                    j,
                    queue@,
                    now as int,
                ) && !claimed_ids_contain(ret, j) implies claim_precedes(
                strategy,
                pre[(#[trigger] ret[kk]).id],
                pre[j],
            ) by {
                assert(wf_row(pre, elig@[kk] as int));
                assert(ret[kk].id == elig@[kk] as int);
                let m = choose|m: int| 0 <= m < elig@.len() && elig@[m] == j;
                assert forall|mm: int| 0 <= mm < take_n implies elig@[mm] != j by {
                    assert(wf_row(pre, elig@[mm] as int));
                    assert(ret[mm].id == elig@[mm] as int);
                }
                assert(take_n <= m < elig@.len());
                assert(claim_precedes(
                    strategy,
                    pre[elig@[kk] as int],
                    pre[elig@[m] as int],
                ));
            }
        }
        out
    }
}

/// Relies on str::eq through String comparison semantics of std: two string
/// slices are equal exactly when their characters are.
#[verifier::external_body]
pub fn str_eq(a: &str, b: &str) -> (r: bool)
    ensures
        r == (a@ == b@),
{
    a == b
}

} // verus!
