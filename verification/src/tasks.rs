//! The task row: the central durable entity, its states and its builder.

use vstd::prelude::*;

use crate::json::{JsonValue, JsonView};

verus! {

/// Lifecycle state of a task row.
#[derive(Clone, Copy, Debug, PartialEq, Eq, Structural)]
pub enum TaskState {
    Available,
    Cancelled,
    Completed,
    Discarded,
    Retryable,
    Running,
    Scheduled,
}

/// A terminal state is never left again.
pub open spec fn is_terminal(s: TaskState) -> bool {
    s is Completed || s is Cancelled || s is Discarded
}

/// Types that identify the handler of a task by a short string.
pub trait TaskKind {
    fn kind() -> String where Self: Sized;
}

/// One recorded failure of a task: when it happened and what was reported.
pub struct TaskErrorRecord {
    pub at: i64,
    pub message: String,
}

impl View for TaskErrorRecord {
    type V = (int, Seq<char>);

    open spec fn view(&self) -> (int, Seq<char>) {
        (self.at as int, self.message@)
    }
}

impl Clone for TaskErrorRecord {
    fn clone(&self) -> (res: Self)
        ensures
            res@ == self@,
    {
        TaskErrorRecord { at: self.at, message: self.message.clone() }
    }
}

/// The views of a list of worker labels or tags.
pub open spec fn strings_view(v: Seq<String>) -> Seq<Seq<char>> {
    Seq::new(v.len(), |i: int| if 0 <= i < v.len() { v[i]@ } else { Seq::empty() })
}

/// The views of an optional list of worker labels or tags.
pub open spec fn opt_strings_view(v: Option<Vec<String>>) -> Option<Seq<Seq<char>>> {
    match v {
        Option::Some(inner) => Option::Some(strings_view(inner@)),
        Option::None => Option::None,
    }
}

/// The view of an optional short string such as a queue name.
pub open spec fn opt_string_view(v: Option<String>) -> Option<Seq<char>> {
    match v {
        Option::Some(inner) => Option::Some(inner@),
        Option::None => Option::None,
    }
}

/// The view of an optional instant.
pub open spec fn opt_time_view(v: Option<i64>) -> Option<int> {
    match v {
        Option::Some(t) => Option::Some(t as int),
        Option::None => Option::None,
    }
}

/// The view of an optional row identifier.
pub open spec fn opt_id_view(v: Option<u128>) -> Option<int> {
    match v {
        Option::Some(id) => Option::Some(id as int),
        Option::None => Option::None,
    }
}

/// The views of a task's recorded failures.
pub open spec fn errors_view(v: Seq<TaskErrorRecord>) -> Seq<(int, Seq<char>)> {
    Seq::new(v.len(), |i: int| if 0 <= i < v.len() { v[i]@ } else { (0int, Seq::empty()) })
}

/// The mathematical shape of a task row.
pub ghost struct TaskView {
    pub id: int,
    pub state: TaskState,
    pub scheduled_at: Option<int>,
    pub attempt: int,
    pub max_attempts: int,
    pub attempted_by: Option<Seq<Seq<char>>>,
    pub tags: Option<Seq<Seq<char>>>,
    pub kind: Seq<char>,
    pub args: JsonView,
    pub priority: int,
    pub queue: Option<Seq<char>>,
    pub depends_on: Option<int>,
    pub dependend_id: Option<int>,
    pub errors: Seq<(int, Seq<char>)>,
    pub created_at: int,
    pub updated_at: int,
}

/// A task row as the store keeps and hands it out. Identifiers are opaque
/// 128-bit values assigned by the store on insert.
pub struct Task {
    pub id: u128,
    pub state: TaskState,
    pub scheduled_at: Option<i64>,
    pub attempt: i16,
    pub max_attempts: i16,
    pub attempted_by: Option<Vec<String>>,
    pub tags: Option<Vec<String>>,
    pub kind: String,
    pub args: JsonValue,
    pub priority: i16,
    pub queue: Option<String>,
    pub depends_on: Option<u128>,
    pub dependend_id: Option<u128>,
    pub errors: Vec<TaskErrorRecord>,
    pub created_at: i64,
    pub updated_at: i64,
}

impl View for Task {
    type V = TaskView;

    open spec fn view(&self) -> TaskView {
        TaskView {
            id: self.id as int,
            state: self.state,
            scheduled_at: opt_time_view(self.scheduled_at),
            attempt: self.attempt as int,
            max_attempts: self.max_attempts as int,
            attempted_by: opt_strings_view(self.attempted_by),
            tags: opt_strings_view(self.tags),
            kind: self.kind@,
            args: self.args@,
            priority: self.priority as int,
            queue: opt_string_view(self.queue),
            depends_on: opt_id_view(self.depends_on),
            dependend_id: opt_id_view(self.dependend_id),
            errors: errors_view(self.errors@),
            created_at: self.created_at as int,
            updated_at: self.updated_at as int,
        }
    }
}

/// Clones a list of strings; the copy reads the same.
pub fn clone_strings(v: &Vec<String>) -> (r: Vec<String>)
    ensures
        strings_view(r@) == strings_view(v@),
        r@.len() == v@.len(),
{
    let mut out: Vec<String> = Vec::new();
    let mut i: usize = 0;
    while i < v.len()
        invariant
            i <= v@.len(),
            out@.len() == i,
            forall|j: int| 0 <= j < i ==> out@[j]@ == v@[j]@,
        decreases v@.len() - i,
    {
        out.push(v[i].clone());
        i = i + 1;
    }
    proof {
        assert(strings_view(out@) =~= strings_view(v@));
    }
    out
}

/// Clones an optional list of strings.
pub fn clone_opt_strings(v: &Option<Vec<String>>) -> (r: Option<Vec<String>>)
    ensures
        opt_strings_view(r) == opt_strings_view(*v),
{
    match v {
        Option::Some(inner) => Option::Some(clone_strings(inner)),
        Option::None => Option::None,
    }
}

/// Clones an optional short string.
pub fn clone_opt_string(v: &Option<String>) -> (r: Option<String>)
    ensures
        opt_string_view(r) == opt_string_view(*v),
{
    match v {
        Option::Some(inner) => Option::Some(inner.clone()),
        Option::None => Option::None,
    }
}

/// Clones a task's recorded failures.
pub fn clone_errors(v: &Vec<TaskErrorRecord>) -> (r: Vec<TaskErrorRecord>)
    ensures
        errors_view(r@) == errors_view(v@),
        r@.len() == v@.len(),
{
    let mut out: Vec<TaskErrorRecord> = Vec::new();
    let mut i: usize = 0;
    while i < v.len()
        invariant
            i <= v@.len(),
            out@.len() == i,
            forall|j: int| 0 <= j < i ==> out@[j]@ == v@[j]@,
        decreases v@.len() - i,
    {
        out.push(v[i].clone());
        i = i + 1;
    }
    proof {
        assert(errors_view(out@) =~= errors_view(v@));
    }
    out
}

impl Clone for Task {
    /// A cloned row reads exactly as the original.
    fn clone(&self) -> (res: Self)
        ensures
            res@ == self@,
    {
        Task {
            id: self.id,
            state: self.state,
            scheduled_at: self.scheduled_at,
            attempt: self.attempt,
            max_attempts: self.max_attempts,
            attempted_by: clone_opt_strings(&self.attempted_by),
            tags: clone_opt_strings(&self.tags),
            kind: self.kind.clone(),
            args: self.args.clone(),
            priority: self.priority,
            queue: clone_opt_string(&self.queue),
            depends_on: self.depends_on,
            dependend_id: self.dependend_id,
            errors: clone_errors(&self.errors),
            created_at: self.created_at,
            updated_at: self.updated_at,
        }
    }
}

/// The mathematical shape of a task specification handed to insert.
pub ghost struct NewTaskView {
    pub scheduled_at: Option<int>,
    pub max_attempts: int,
    pub attempted_by: Seq<Seq<char>>,
    pub tags: Seq<Seq<char>>,
    pub kind: Seq<char>,
    pub args: JsonView,
    pub priority: int,
    pub queue: Option<Seq<char>>,
    pub depends_on: Option<int>,
    pub dependend_id: Option<int>,
}

/// A task specification: everything a producer states about a new row.
pub struct NewTask {
    pub scheduled_at: Option<i64>,
    pub max_attempts: i16,
    pub attempted_by: Vec<String>,
    pub tags: Vec<String>,
    pub kind: String,
    pub args: JsonValue,
    pub priority: i16,
    pub queue: Option<String>,
    pub depends_on: Option<u128>,
    pub dependend_id: Option<u128>,
}

impl View for NewTask {
    type V = NewTaskView;

    open spec fn view(&self) -> NewTaskView {
        NewTaskView {
            scheduled_at: opt_time_view(self.scheduled_at),
            max_attempts: self.max_attempts as int,
            attempted_by: strings_view(self.attempted_by@),
            tags: strings_view(self.tags@),
            kind: self.kind@,
            args: self.args@,
            priority: self.priority as int,
            queue: opt_string_view(self.queue),
            depends_on: opt_id_view(self.depends_on),
            dependend_id: opt_id_view(self.dependend_id),
        }
    }
}

impl Clone for NewTask {
    /// A cloned specification reads exactly as the original.
    fn clone(&self) -> (res: Self)
        ensures
            res@ == self@,
    {
        NewTask {
            scheduled_at: self.scheduled_at,
            max_attempts: self.max_attempts,
            attempted_by: clone_strings(&self.attempted_by),
            tags: clone_strings(&self.tags),
            kind: self.kind.clone(),
            args: self.args.clone(),
            priority: self.priority,
            queue: clone_opt_string(&self.queue),
            depends_on: self.depends_on,
            dependend_id: self.dependend_id,
        }
    }
}

/// Why a task specification could not be built.
#[derive(Clone, Copy, Debug, PartialEq, Eq, Structural)]
pub enum TaskBuildError {
    KindMissing,
    ArgsMissing,
}

/// What a builder has gathered so far.
pub struct TaskBuilderInner {
    pub scheduled_at: Option<i64>,
    pub max_attempts: Option<i16>,
    pub attempted_by: Vec<String>,
    pub tags: Vec<String>,
    pub kind: Option<String>,
    pub args: Option<JsonValue>,
    pub priority: Option<i16>,
    pub queue: Option<String>,
    pub depends_on: Option<u128>,
    pub dependend_id: Option<u128>,
}

/// Step-by-step construction of a task specification.
pub struct TaskBuilder {
    pub inner: TaskBuilderInner,
}

impl Default for TaskBuilder {
    /// A fresh builder: three attempts, priority 100, nothing else chosen.
    fn default() -> (r: Self)
        ensures
            r.inner.scheduled_at is None,
            r.inner.max_attempts == Option::Some(3i16),
            r.inner.attempted_by@.len() == 0,
            r.inner.tags@.len() == 0,
            r.inner.kind is None,
            r.inner.args is None,
            r.inner.priority == Option::Some(100i16),
            r.inner.queue is None,
            r.inner.depends_on is None,
            r.inner.dependend_id is None,
    {
        let inner = TaskBuilderInner {
            scheduled_at: Option::None,
            max_attempts: Option::Some(3),
            attempted_by: Vec::new(),
            tags: Vec::new(),
            kind: Option::None,
            args: Option::None,
            priority: Option::Some(100),
            queue: Option::None,
            depends_on: Option::None,
            dependend_id: Option::None,
        };
        TaskBuilder { inner }
    }
}

impl Task {
    /// Starts a fresh task specification.
    pub fn builder() -> (r: TaskBuilder)
        ensures
            r.inner.scheduled_at is None,
            r.inner.max_attempts == Option::Some(3i16),
            r.inner.attempted_by@.len() == 0,
            r.inner.tags@.len() == 0,
            r.inner.kind is None,
            r.inner.args is None,
            r.inner.priority == Option::Some(100i16),
            r.inner.queue is None,
            r.inner.depends_on is None,
            r.inner.dependend_id is None,
    {
        TaskBuilder::default()
    }
}

impl TaskBuilder {
    pub fn kind(self, kind: &str) -> (r: Self)
        ensures
            r.inner.kind matches Option::Some(k) && k@ == kind@,
            r.inner == (TaskBuilderInner { kind: r.inner.kind, ..self.inner }),
    {
        let mut inner = self.inner;
        inner.kind = Option::Some(kind.to_owned());
        TaskBuilder { inner }
    }

    pub fn args(self, args: JsonValue) -> (r: Self)
        ensures
            r.inner.args == Option::Some(args),
            r.inner == (TaskBuilderInner { args: r.inner.args, ..self.inner }),
    {
        let mut inner = self.inner;
        inner.args = Option::Some(args);
        TaskBuilder { inner }
    }

    pub fn depends_on(self, dependend_id: &u128) -> (r: Self)
        ensures
            r.inner == (TaskBuilderInner { depends_on: Option::Some(*dependend_id), ..self.inner }),
    {
        let mut this = self;
        this.set_depends_on(dependend_id);
        this
    }

    pub fn set_depends_on(&mut self, dependend_id: &u128)
        ensures
            final(self).inner == (TaskBuilderInner {
                depends_on: Option::Some(*dependend_id),
                ..old(self).inner
            }),
    {
        self.inner.depends_on = Option::Some(*dependend_id);
    }

    pub fn queue(self, queue: &str) -> (r: Self)
        ensures
            r.inner.queue matches Option::Some(q) && q@ == queue@,
            r.inner == (TaskBuilderInner { queue: r.inner.queue, ..self.inner }),
    {
        let mut this = self;
        this.set_queue(queue);
        this
    }

    pub fn set_queue(&mut self, queue: &str)
        ensures
            final(self).inner.queue matches Option::Some(q) && q@ == queue@,
            final(self).inner == (TaskBuilderInner {
                queue: final(self).inner.queue,
                ..old(self).inner
            }),
    {
        self.inner.queue = Option::Some(queue.to_owned());
    }

    pub fn priority(self, priority: i16) -> (r: Self)
        ensures
            r.inner == (TaskBuilderInner { priority: Option::Some(priority), ..self.inner }),
    {
        let mut this = self;
        this.set_priority(priority);
        this
    }

    pub fn set_priority(&mut self, priority: i16)
        ensures
            final(self).inner == (TaskBuilderInner {
                priority: Option::Some(priority),
                ..old(self).inner
            }),
    {
        self.inner.priority = Option::Some(priority);
    }

    pub fn dependend_id(self, dependend_id: &u128) -> (r: Self)
        ensures
            r.inner == (TaskBuilderInner {
                dependend_id: Option::Some(*dependend_id),
                ..self.inner
            }),
    {
        let mut this = self;
        this.set_dependend_id(dependend_id);
        this
    }

    pub fn set_dependend_id(&mut self, dependend_id: &u128)
        ensures
            final(self).inner == (TaskBuilderInner {
                dependend_id: Option::Some(*dependend_id),
                ..old(self).inner
            }),
    {
        self.inner.dependend_id = Option::Some(*dependend_id);
    }

    pub fn scheduled_at(self, scheduled_at: &i64) -> (r: Self)
        ensures
            r.inner == (TaskBuilderInner {
                scheduled_at: Option::Some(*scheduled_at),
                ..self.inner
            }),
    {
        let mut this = self;
        this.set_scheduled_at(scheduled_at);
        this
    }

    pub fn set_scheduled_at(&mut self, scheduled_at: &i64)
        ensures
            final(self).inner == (TaskBuilderInner {
                scheduled_at: Option::Some(*scheduled_at),
                ..old(self).inner
            }),
    {
        self.inner.scheduled_at = Option::Some(*scheduled_at);
    }

    /// Finishes the specification: the kind and the args must have been
    /// chosen; everything else falls back to its default.
    pub fn build(self) -> (r: Result<NewTask, TaskBuildError>)
        ensures
            self.inner.kind is None ==> r == Result::<NewTask, TaskBuildError>::Err(
                TaskBuildError::KindMissing,
            ),
            self.inner.kind is Some && self.inner.args is None ==> r == Result::<
                NewTask,
                TaskBuildError,
            >::Err(TaskBuildError::ArgsMissing),
            self.inner.kind is Some && self.inner.args is Some ==> (r matches Result::Ok(t) && t@
                == (NewTaskView {
                scheduled_at: opt_time_view(self.inner.scheduled_at),
                max_attempts: match self.inner.max_attempts {
                    Option::Some(m) => m as int,
                    Option::None => 3,
                },
                attempted_by: strings_view(self.inner.attempted_by@),
                tags: strings_view(self.inner.tags@),
                kind: self.inner.kind->0@,
                args: self.inner.args->0@,
                priority: match self.inner.priority {
                    Option::Some(p) => p as int,
                    Option::None => 3,
                },
                queue: opt_string_view(self.inner.queue),
                depends_on: opt_id_view(self.inner.depends_on),
                dependend_id: opt_id_view(self.inner.dependend_id),
            })),
    {
        let inner = self.inner;
        let kind = match inner.kind {
            Option::Some(k) => k,
            Option::None => {
                return Result::Err(TaskBuildError::KindMissing);
            },
        };
        let args = match inner.args {
            Option::Some(a) => a,
            Option::None => {
                return Result::Err(TaskBuildError::ArgsMissing);
            },
        };
        let max_attempts = match inner.max_attempts {
            Option::Some(m) => m,
            Option::None => 3,
        };
        let priority = match inner.priority {
            Option::Some(p) => p,
            Option::None => 3,
        };
        Result::Ok(
            NewTask {
                scheduled_at: inner.scheduled_at,
                max_attempts,
                attempted_by: inner.attempted_by,
                tags: inner.tags,
                kind,
                args,
                priority,
                queue: inner.queue,
                depends_on: inner.depends_on,
                dependend_id: inner.dependend_id,
            },
        )
    }
}

} // verus!
