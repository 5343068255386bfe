//! Periodic jobs: the kind-to-cron-expression map and the bootstrap that
//! seeds the hourly materializer task.

use vstd::prelude::*;

use crate::store::{filter_kind_queue, inserted_view, TaskService, TaskStore};
use crate::json::JsonValue;
use crate::tasks::{strings_view, NewTaskView, Task, TaskKind};
use crate::time::{hour_start, hour_start_at, MAX_SCHEDULE_SECONDS};

verus! {

/// The reserved kind under which the hourly materializer runs.
pub open spec fn periodic_task_kind() -> Seq<char> {
    "chang_schedule_periodic_task"@
}

/// The reserved kind as a string, for building rows and looking them up.
pub fn periodic_task_kind_str() -> (r: String)
    ensures
        r@ == periodic_task_kind(),
        r@.len() > 0,
{
    proof {
        reveal_strlit("chang_schedule_periodic_task");
    }
    "chang_schedule_periodic_task".to_owned()
}

/// The hourly materializer, as a task kind.
pub struct ChangSchedulePeriodicTask;

impl TaskKind for ChangSchedulePeriodicTask {
    fn kind() -> (r: String)
        ensures
            r@ == periodic_task_kind(),
    {
        periodic_task_kind_str()
    }
}

/// The periodic jobs a runner knows: pairs of a task kind and the cron
/// expression on which it fires. Each kind occurs at most once.
pub struct PeriodicJobs(pub Vec<(String, String)>);

/// The views of the entries of a periodic-jobs map.
pub open spec fn jobs_view(v: Seq<(String, String)>) -> Seq<(Seq<char>, Seq<char>)> {
    Seq::new(v.len(), |i: int| if 0 <= i < v.len() { (v[i].0@, v[i].1@) } else { (Seq::empty(), Seq::empty()) })
}

impl View for PeriodicJobs {
    type V = Seq<(Seq<char>, Seq<char>)>;

    open spec fn view(&self) -> Seq<(Seq<char>, Seq<char>)> {
        jobs_view(self.0@)
    }
}

/// Well-formedness of a jobs map: each kind is non-empty and bound to at
/// most one schedule.
pub open spec fn jobs_wf(s: Seq<(Seq<char>, Seq<char>)>) -> bool {
    &&& forall|i: int, j: int| 0 <= i < j < s.len() ==> (#[trigger] s[i]).0 != (#[trigger] s[j]).0
    &&& forall|i: int| 0 <= i < s.len() ==> (#[trigger] s[i]).0.len() > 0
}

impl PeriodicJobs {
    /// Each kind is non-empty and bound to at most one schedule.
    pub open spec fn wf(&self) -> bool {
        jobs_wf(self@)
    }

    /// An empty map.
    pub fn new() -> (r: PeriodicJobs)
        ensures
            r@ == Seq::<(Seq<char>, Seq<char>)>::empty(),
            r.wf(),
    {
        let r = PeriodicJobs(Vec::new());
        proof {
            assert(r@ =~= Seq::<(Seq<char>, Seq<char>)>::empty());
        }
        r
    }

    /// The entries, in insertion order.
    pub fn entries(&self) -> (r: &Vec<(String, String)>)
        ensures
            jobs_view(r@) == self@,
    {
        &self.0
    }

    /// Whether no job is registered.
    pub fn is_empty(&self) -> (b: bool)
        ensures
            b == (self@.len() == 0),
    {
        self.0.len() == 0
    }

    /// Binds `kind` to `schedule`: replaces the schedule if the kind is
    /// already bound, appends the pair otherwise.
    #[verifier::loop_isolation(false)]
    pub fn insert(&mut self, kind: &str, schedule: &str)
        requires
            old(self).wf(),
            kind@.len() > 0,
        ensures
            final(self).wf(),
            (exists|i: int| 0 <= i < old(self)@.len() && (#[trigger] old(self)@[i]).0 == kind@)
                ==> final(self)@ == old(self)@.update(
                choose|i: int| 0 <= i < old(self)@.len() && (#[trigger] old(self)@[i]).0 == kind@,
                (kind@, schedule@),
            ),
            !(exists|i: int| 0 <= i < old(self)@.len() && (#[trigger] old(self)@[i]).0 == kind@)
                ==> final(self)@ == old(self)@.push((kind@, schedule@)),
    {
        let mut i: usize = 0;
        while i < self.0.len()
            invariant
                i <= self.0@.len(),
                self.0@ == old(self).0@,
                forall|j: int| 0 <= j < i ==> (#[trigger] self@[j]).0 != kind@,
            decreases self.0@.len() - i,
        {
            if crate::store::str_eq(self.0[i].0.as_str(), kind) {
                let entry = (kind.to_owned(), schedule.to_owned());
                self.0.set(i, entry);
                proof {
                    let ghost w = i as int;
                    assert((old(self)@[w]).0 == kind@);
                    let c = choose|t: int|
                        0 <= t < old(self)@.len() && (#[trigger] old(self)@[t]).0 == kind@;
                    assert(old(self).wf());
                    assert(c == w);
                    assert(final(self)@ =~= old(self)@.update(w, (kind@, schedule@)));
                }
                return ;
            }
            i = i + 1;
        }
        proof {
            assert forall|j: int|
                0 <= j < old(self)@.len() implies (#[trigger] old(self)@[j]).0 != kind@ by {
                assert((self@[j]).0 != kind@);
            }
        }
        self.0.push((kind.to_owned(), schedule.to_owned()));
        proof {
            assert(final(self)@ =~= old(self)@.push((kind@, schedule@)));
            assert forall|a: int, b: int| 0 <= a < b < final(self)@.len() implies (
            #[trigger] final(self)@[a]).0 != (#[trigger] final(self)@[b]).0 by {
                if b < old(self)@.len() {
                    assert((old(self)@[a]).0 != (old(self)@[b]).0);
                } else {
                    assert((old(self)@[a]).0 != kind@);
                }
            }
        }
    }
}

impl Clone for PeriodicJobs {
    /// A cloned map reads exactly as the original.
    fn clone(&self) -> (res: Self)
        ensures
            res@ == self@,
    {
        let mut out: Vec<(String, String)> = Vec::new();
        let mut i: usize = 0;
        while i < self.0.len()
            invariant
                i <= self.0@.len(),
                out@.len() == i,
                forall|j: int|
                    0 <= j < i ==> out@[j].0@ == self.0@[j].0@ && out@[j].1@ == self.0@[j].1@,
            decreases self.0@.len() - i,
        {
            let kind = self.0[i].0.clone();
            let schedule = self.0[i].1.clone();
            out.push((kind, schedule));
            i = i + 1;
        }
        let res = PeriodicJobs(out);
        proof {
            assert(res@ =~= self@);
        }
        res
    }
}

/// The bootstrap row that `init` inserts on `queue` at instant `now`: the
/// reserved kind, no payload, top priority, scheduled at the start of the
/// current hour so that it is immediately available.
pub open spec fn bootstrap_spec(queue: Seq<char>, now: int) -> NewTaskView {
    NewTaskView {
        scheduled_at: Option::Some(hour_start(now)),
        max_attempts: 3,
        attempted_by: Seq::empty(),
        tags: Seq::empty(),
        kind: periodic_task_kind(),
        args: crate::json::JsonView::Null,
        priority: i16::MAX as int,
        queue: Option::Some(queue),
        depends_on: Option::None,
        dependend_id: Option::None,
    }
}

/// The whole effect of one bootstrap run: nothing when no periodic job is
/// registered or a materializer row already sits on the queue; otherwise
/// exactly one new bootstrap row.
pub open spec fn init_effect(
    pre: Seq<crate::tasks::TaskView>,
    post: Seq<crate::tasks::TaskView>,
    jobs_count: int,
    queue: Seq<char>,
    now: int,
) -> bool {
    if jobs_count == 0 {
        post == pre
    } else if filter_kind_queue(pre, periodic_task_kind(), queue).len() > 0 {
        post == pre
    } else {
        post == pre.push(inserted_view(bootstrap_spec(queue, now), pre.len() as int, now))
    }
}

/// Seeds the hourly materializer: does nothing when no periodic job is
/// registered or when a materializer task already sits on the queue;
/// otherwise inserts exactly one, scheduled at the start of the current
/// hour and so immediately available.
pub fn init(periodic_jobs: &PeriodicJobs, db: &mut TaskStore, queue: &str, now: &i64)
    requires
        old(db).wf(),
        0 <= *now <= MAX_SCHEDULE_SECONDS,
    ensures
        final(db).wf(),
        init_effect(old(db)@, final(db)@, periodic_jobs@.len() as int, queue@, *now as int),
{
    if periodic_jobs.is_empty() {
        return ;
    }
    let kind = periodic_task_kind_str();
    let current = TaskService::get_tasks_by_kind(db, kind.as_str(), queue, 1);
    if current.len() > 0 {
        proof {
            let all = filter_kind_queue(old(db)@, periodic_task_kind(), queue@);
            assert(crate::store::tasks_view(current@).len() == current@.len());
            assert(all.len() > 0);
        }
        return ;
    }
    proof {
        assert(filter_kind_queue(old(db)@, periodic_task_kind(), queue@).len() == 0) by {
            let all = filter_kind_queue(old(db)@, periodic_task_kind(), queue@);
            if all.len() > 0 {
                assert(crate::store::tasks_view(current@).len() == all.take(1).len());
            }
        }
    }
    let start_of_hour = hour_start_at(*now);
    let built = Task::builder().kind(kind.as_str()).args(JsonValue::Null).scheduled_at(
        &start_of_hour,
    ).priority(i16::MAX).queue(queue).build();
    let task = match built {
        Result::Ok(t) => t,
        Result::Err(_) => {
            proof {
                assert(false);
            }
            return ;
        },
    };
    proof {
        reveal_strlit("chang_schedule_periodic_task");
        assert(task@.attempted_by =~= Seq::<Seq<char>>::empty());
        assert(task@.tags =~= Seq::<Seq<char>>::empty());
        assert(task@.kind == periodic_task_kind());
        assert(task@.args == crate::json::JsonView::Null);
        assert(task@.scheduled_at == Option::Some(hour_start(*now as int)));
        assert(task@.max_attempts == 3);
        assert(task@.priority == i16::MAX as int);
        assert(task@.queue == Option::Some(queue@));
        assert(task@.depends_on is None && task@.dependend_id is None);
        assert(task@ == bootstrap_spec(queue@, *now as int));
    }
    TaskService::insert(db, task, *now);
}

} // verus!
