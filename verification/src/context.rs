//! The execution context: the per-task bag of values a handler receives.
//!
//! A context maps each value's identity to at most one value. The
//! identities are the kinds of value a handler can ask for: the claimed
//! task, the periodic-jobs map, the claimed task's payload, and
//! user-supplied singletons under a name of their own.

use vstd::prelude::*;

use crate::json::{JsonValue, JsonView};
use crate::periodic::{jobs_view, PeriodicJobs};
use crate::store::str_eq;
use crate::tasks::{Task, TaskView};

verus! {

/// The payload of the claimed task, as a handler decodes it.
pub struct CurrentTask(pub JsonValue);

impl Clone for CurrentTask {
    fn clone(&self) -> (res: Self)
        ensures
            res.0@ == self.0@,
    {
        CurrentTask(self.0.clone())
    }
}

/// A value a context can carry.
pub enum ContextValue {
    Task(Task),
    PeriodicJobs(PeriodicJobs),
    CurrentTask(CurrentTask),
    User(String, JsonValue),
}

/// The identity a context value is stored under.
pub enum ContextKey {
    Task,
    PeriodicJobs,
    CurrentTask,
    User(String),
}

/// The mathematical shape of a context value.
pub ghost enum ContextValueView {
    Task(TaskView),
    PeriodicJobs(Seq<(Seq<char>, Seq<char>)>),
    CurrentTask(JsonView),
    User(Seq<char>, JsonView),
}

/// The mathematical shape of an identity.
pub ghost enum ContextKeyView {
    Task,
    PeriodicJobs,
    CurrentTask,
    User(Seq<char>),
}

impl View for ContextValue {
    type V = ContextValueView;

    open spec fn view(&self) -> ContextValueView {
        match self {
            ContextValue::Task(t) => ContextValueView::Task(t@),
            ContextValue::PeriodicJobs(j) => ContextValueView::PeriodicJobs(j@),
            ContextValue::CurrentTask(c) => ContextValueView::CurrentTask(c.0@),
            ContextValue::User(name, v) => ContextValueView::User(name@, v@),
        }
    }
}

impl View for ContextKey {
    type V = ContextKeyView;

    open spec fn view(&self) -> ContextKeyView {
        match self {
            ContextKey::Task => ContextKeyView::Task,
            ContextKey::PeriodicJobs => ContextKeyView::PeriodicJobs,
            ContextKey::CurrentTask => ContextKeyView::CurrentTask,
            ContextKey::User(name) => ContextKeyView::User(name@),
        }
    }
}

/// The identity a value is stored under.
pub open spec fn key_of(v: ContextValueView) -> ContextKeyView {
    match v {
        ContextValueView::Task(_) => ContextKeyView::Task,
        ContextValueView::PeriodicJobs(_) => ContextKeyView::PeriodicJobs,
        ContextValueView::CurrentTask(_) => ContextKeyView::CurrentTask,
        ContextValueView::User(name, _) => ContextKeyView::User(name),
    }
}

impl Clone for ContextValue {
    fn clone(&self) -> (res: Self)
        ensures
            res@ == self@,
    {
        match self {
            ContextValue::Task(t) => ContextValue::Task(t.clone()),
            ContextValue::PeriodicJobs(j) => ContextValue::PeriodicJobs(j.clone()),
            ContextValue::CurrentTask(c) => ContextValue::CurrentTask(c.clone()),
            ContextValue::User(name, v) => ContextValue::User(name.clone(), v.clone()),
        }
    }
}

/// The views of a context's entries.
pub open spec fn entries_view(v: Seq<ContextValue>) -> Seq<ContextValueView> {
    Seq::new(v.len(), |i: int| if 0 <= i < v.len() { v[i]@ } else { arbitrary() })
}

/// The per-task value bag: at most one value per identity.
pub struct Context {
    pub entries: Vec<ContextValue>,
}

impl View for Context {
    type V = Seq<ContextValueView>;

    open spec fn view(&self) -> Seq<ContextValueView> {
        entries_view(self.entries@)
    }
}

/// Decides whether a stored value carries the given identity.
fn value_has_key(v: &ContextValue, key: &ContextKey) -> (r: bool)
    ensures
        r == (key_of(v@) == key@),
{
    match (v, key) {
        (ContextValue::Task(_), ContextKey::Task) => true,
        (ContextValue::PeriodicJobs(_), ContextKey::PeriodicJobs) => true,
        (ContextValue::CurrentTask(_), ContextKey::CurrentTask) => true,
        (ContextValue::User(name, _), ContextKey::User(wanted)) => str_eq(
            name.as_str(),
            wanted.as_str(),
        ),
        _ => false,
    }
}

impl Context {
    /// Each identity occurs at most once.
    pub open spec fn wf(&self) -> bool {
        forall|i: int, j: int|
            0 <= i < j < self@.len() ==> key_of(#[trigger] self@[i]) != key_of(#[trigger] self@[j])
    }

    /// An empty context.
    pub fn new() -> (r: Context)
        ensures
            r@ == Seq::<ContextValueView>::empty(),
            r.wf(),
    {
        let r = Context { entries: Vec::new() };
        proof {
            assert(r@ =~= Seq::<ContextValueView>::empty());
        }
        r
    }

    /// Stores a value: replaces the value of the same identity if one is
    /// there, adds the value otherwise.
    #[verifier::loop_isolation(false)]
    pub fn put(&mut self, value: ContextValue)
        requires
            old(self).wf(),
        ensures
            final(self).wf(),
            (exists|i: int|
                0 <= i < old(self)@.len() && key_of(#[trigger] old(self)@[i]) == key_of(value@))
                ==> final(self)@ == old(self)@.update(
                choose|i: int|
                    0 <= i < old(self)@.len() && key_of(#[trigger] old(self)@[i]) == key_of(
                        value@,
                    ),
                value@,
            ),
            !(exists|i: int|
                0 <= i < old(self)@.len() && key_of(#[trigger] old(self)@[i]) == key_of(value@))
                ==> final(self)@ == old(self)@.push(value@),
    {
        let key = match &value {
            ContextValue::Task(_) => ContextKey::Task,
            ContextValue::PeriodicJobs(_) => ContextKey::PeriodicJobs,
            ContextValue::CurrentTask(_) => ContextKey::CurrentTask,
            ContextValue::User(name, _) => ContextKey::User(name.clone()),
        };
        let mut i: usize = 0;
        while i < self.entries.len()
            invariant
                i <= self.entries@.len(),
                self.entries@ == old(self).entries@,
                key@ == key_of(value@),
                forall|j: int| 0 <= j < i ==> key_of(#[trigger] self@[j]) != key_of(value@),
            decreases self.entries@.len() - i,
        {
            if value_has_key(&self.entries[i], &key) {
                self.entries.set(i, value);
                proof {
                    let ghost w = i as int;
                    let c = choose|t: int|
                        0 <= t < old(self)@.len() && key_of(#[trigger] old(self)@[t]) == key_of(
                            value@,
                        );
                    assert(key_of(old(self)@[w]) == key_of(value@));
                    assert(c == w);
                    assert(final(self)@ =~= old(self)@.update(w, value@));
                }
                return ;
            }
            i = i + 1;
        }
        proof {
            assert forall|j: int|
                0 <= j < old(self)@.len() implies key_of(#[trigger] old(self)@[j]) != key_of(
                value@,
            ) by {
                assert(key_of(self@[j]) != key_of(value@));
            }
        }
        self.entries.push(value);
        proof {
            assert(final(self)@ =~= old(self)@.push(value@));
            assert forall|a: int, b: int| 0 <= a < b < final(self)@.len() implies key_of(
                #[trigger] final(self)@[a],
            ) != key_of(#[trigger] final(self)@[b]) by {
                if b < old(self)@.len() {
                    assert(key_of(old(self)@[a]) != key_of(old(self)@[b]));
                } else {
                    assert(key_of(old(self)@[a]) != key_of(value@));
                }
            }
        }
    }

    /// Reads the value stored under an identity, if any.
    #[verifier::loop_isolation(false)]
    pub fn get(&self, key: &ContextKey) -> (r: Option<&ContextValue>)
        ensures
            match r {
                Option::Some(v) => exists|i: int|
                    0 <= i < self@.len() && #[trigger] self@[i] == v@ && key_of(v@) == key@,
                Option::None => forall|i: int|
                    0 <= i < self@.len() ==> key_of(#[trigger] self@[i]) != key@,
            },
    {
        let mut i: usize = 0;
        while i < self.entries.len()
            invariant
                i <= self.entries@.len(),
                forall|j: int| 0 <= j < i ==> key_of(#[trigger] self@[j]) != key@,
            decreases self.entries@.len() - i,
        {
            if value_has_key(&self.entries[i], key) {
                proof {
                    assert(self@[i as int] == self.entries@[i as int]@);
                }
                return Option::Some(&self.entries[i]);
            }
            i = i + 1;
        }
        Option::None
    }

    /// The identities currently stored, in storage order.
    pub fn keys(&self) -> (r: Vec<ContextKey>)
        ensures
            r@.len() == self@.len(),
            forall|i: int| 0 <= i < r@.len() ==> (#[trigger] r@[i])@ == key_of(self@[i]),
    {
        let mut out: Vec<ContextKey> = Vec::new();
        let mut i: usize = 0;
        while i < self.entries.len()
            invariant
                i <= self.entries@.len(),
                out@.len() == i,
                forall|j: int| 0 <= j < i ==> (#[trigger] out@[j])@ == key_of(self@[j]),
            decreases self.entries@.len() - i,
        {
            let key = match &self.entries[i] {
                ContextValue::Task(_) => ContextKey::Task,
                ContextValue::PeriodicJobs(_) => ContextKey::PeriodicJobs,
                ContextValue::CurrentTask(_) => ContextKey::CurrentTask,
                ContextValue::User(name, _) => ContextKey::User(name.clone()),
            };
            proof {
                assert(self@[i as int] == self.entries@[i as int]@);
            }
            out.push(key);
            i = i + 1;
        }
        out
    }

    /// The values currently stored, in storage order.
    pub fn values(&self) -> (r: &Vec<ContextValue>)
        ensures
            entries_view(r@) == self@,
    {
        &self.entries
    }
}

impl Clone for Context {
    /// A cloned context carries the same values under the same identities.
    fn clone(&self) -> (res: Self)
        ensures
            res@ == self@,
    {
        let mut out: Vec<ContextValue> = Vec::new();
        let mut i: usize = 0;
        while i < self.entries.len()
            invariant
                i <= self.entries@.len(),
                out@.len() == i,
                forall|j: int| 0 <= j < i ==> (#[trigger] out@[j])@ == self.entries@[j]@,
            decreases self.entries@.len() - i,
        {
            out.push(self.entries[i].clone());
            i = i + 1;
        }
        let res = Context { entries: out };
        proof {
            assert(res@ =~= self@);
        }
        res
    }
}

/// Why the claimed task could not be taken from a context.
#[derive(Clone, Copy, Debug, PartialEq, Eq, Structural)]
pub enum TaskError {
    NotFound,
}

/// Why the claimed task's payload could not be taken from a context.
#[derive(Clone, Copy, Debug, PartialEq, Eq, Structural)]
pub enum CurrentTaskError {
    NotFound,
    Task(TaskError),
}

/// Why the periodic-jobs map could not be taken from a context.
#[derive(Clone, Copy, Debug, PartialEq, Eq, Structural)]
pub enum PeriodicJobsError {
    PeriodicJobsNotFound,
}

impl Task {
    /// Takes the claimed task out of a context.
    pub fn from_context(ctx: &Context) -> (r: Result<Task, TaskError>)
        ensures
            match r {
                Result::Ok(t) => exists|i: int|
                    0 <= i < ctx@.len() && #[trigger] ctx@[i] == ContextValueView::Task(t@),
                Result::Err(e) => e == TaskError::NotFound && forall|i: int|
                    0 <= i < ctx@.len() ==> !((#[trigger] ctx@[i]) is Task),
            },
    {
        match ctx.get(&ContextKey::Task) {
            Option::Some(ContextValue::Task(t)) => Result::Ok(t.clone()),
            Option::Some(v) => {
                // A value found under the task identity is the task itself.
                proof {
                    assert(key_of(v@) == ContextKeyView::Task);
                    assert(false);
                }
                Result::Err(TaskError::NotFound)
            },
            Option::None => Result::Err(TaskError::NotFound),
        }
    }
}

impl CurrentTask {
    /// Takes the claimed task's payload out of a context.
    pub fn from_context(ctx: &Context) -> (r: Result<CurrentTask, CurrentTaskError>)
        ensures
            match r {
                Result::Ok(c) => exists|i: int|
                    0 <= i < ctx@.len() && (#[trigger] ctx@[i]) is Task && ctx@[i]->Task_0.args
                        == c.0@,
                Result::Err(e) => e == CurrentTaskError::Task(TaskError::NotFound) && forall|i: int|
                    0 <= i < ctx@.len() ==> !((#[trigger] ctx@[i]) is Task),
            },
    {
        match Task::from_context(ctx) {
            Result::Ok(task) => Result::Ok(CurrentTask(task.args)),
            Result::Err(e) => Result::Err(CurrentTaskError::Task(e)),
        }
    }
}

impl PeriodicJobs {
    /// Takes the periodic-jobs map out of a context.
    pub fn from_context(ctx: &Context) -> (r: Result<PeriodicJobs, PeriodicJobsError>)
        ensures
            match r {
                Result::Ok(j) => exists|i: int|
                    0 <= i < ctx@.len() && #[trigger] ctx@[i] == ContextValueView::PeriodicJobs(j@),
                Result::Err(e) => e == PeriodicJobsError::PeriodicJobsNotFound && forall|i: int|
                    0 <= i < ctx@.len() ==> !((#[trigger] ctx@[i]) is PeriodicJobs),
            },
    {
        match ctx.get(&ContextKey::PeriodicJobs) {
            Option::Some(ContextValue::PeriodicJobs(j)) => Result::Ok(j.clone()),
            Option::Some(v) => {
                // A value found under the jobs identity is the jobs map itself.
                proof {
                    assert(key_of(v@) == ContextKeyView::PeriodicJobs);
                    assert(false);
                }
                Result::Err(PeriodicJobsError::PeriodicJobsNotFound)
            },
            Option::None => Result::Err(PeriodicJobsError::PeriodicJobsNotFound),
        }
    }
}

} // verus!
