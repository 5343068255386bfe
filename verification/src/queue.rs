//! Queue policy: how a worker selects rows, how many, and how long it idles.

use vstd::prelude::*;

verus! {

/// The order in which eligible rows are claimed from a queue.
#[derive(Clone, Copy, Debug, PartialEq, Eq, Structural)]
pub enum SchedulingStrategy {
    FCFS,
    Priority,
}

/// An immutable per-queue policy: name, strategy, claim batch size and idle
/// interval in milliseconds.
pub struct TaskQueue {
    pub strategy: SchedulingStrategy,
    pub name: String,
    pub limit: i64,
    pub interval: u64,
}

impl TaskQueue {
    /// Starts a policy description with the defaults.
    pub fn builder() -> (r: TaskQueueBuilder)
        ensures
            r.inner.strategy == Option::Some(SchedulingStrategy::FCFS),
            r.inner.name matches Option::Some(n) && n@ == "default"@,
            r.inner.limit == 10i64,
            r.inner.interval == 500u64,
    {
        TaskQueueBuilder::default()
    }
}

/// What a queue builder has gathered so far.
pub struct TaskQueueBuilderInner {
    pub strategy: Option<SchedulingStrategy>,
    pub name: Option<String>,
    pub limit: i64,
    pub interval: u64,
}

impl Default for TaskQueueBuilderInner {
    /// The default policy: queue `default`, first-come first-served, ten
    /// rows per claim, half a second between polls.
    fn default() -> (r: Self)
        ensures
            r.strategy == Option::Some(SchedulingStrategy::FCFS),
            r.name matches Option::Some(n) && n@ == "default"@,
            r.limit == 10i64,
            r.interval == 500u64,
    {
        TaskQueueBuilderInner {
            strategy: Option::Some(SchedulingStrategy::FCFS),
            name: Option::Some("default".to_owned()),
            limit: 10,
            interval: 500,
        }
    }
}

/// Step-by-step construction of a queue policy.
pub struct TaskQueueBuilder {
    pub inner: TaskQueueBuilderInner,
}

impl Default for TaskQueueBuilder {
    fn default() -> (r: Self)
        ensures
            r.inner.strategy == Option::Some(SchedulingStrategy::FCFS),
            r.inner.name matches Option::Some(n) && n@ == "default"@,
            r.inner.limit == 10i64,
            r.inner.interval == 500u64,
    {
        let inner = TaskQueueBuilderInner::default();
        TaskQueueBuilder { inner }
    }
}

impl TaskQueueBuilder {
    pub fn strategy(self, strategy: SchedulingStrategy) -> (r: Self)
        ensures
            r.inner == (TaskQueueBuilderInner {
                strategy: Option::Some(strategy),
                ..self.inner
            }),
    {
        let mut inner = self.inner;
        inner.strategy = Option::Some(strategy);
        TaskQueueBuilder { inner }
    }

    pub fn name(self, name: &str) -> (r: Self)
        ensures
            r.inner.name matches Option::Some(n) && n@ == name@,
            r.inner == (TaskQueueBuilderInner { name: r.inner.name, ..self.inner }),
    {
        let mut inner = self.inner;
        inner.name = Option::Some(name.to_owned());
        TaskQueueBuilder { inner }
    }

    pub fn limit(self, limit: i64) -> (r: Self)
        ensures
            r.inner == (TaskQueueBuilderInner { limit: limit, ..self.inner }),
    {
        let mut inner = self.inner;
        inner.limit = limit;
        TaskQueueBuilder { inner }
    }

    pub fn interval(self, interval: u64) -> (r: Self)
        ensures
            r.inner == (TaskQueueBuilderInner { interval: interval, ..self.inner }),
    {
        let mut inner = self.inner;
        inner.interval = interval;
        TaskQueueBuilder { inner }
    }

    /// Finishes the policy; a strategy or name never chosen falls back to
    /// first-come first-served on the queue named `name`.
    pub fn build(self) -> (r: TaskQueue)
        ensures
            r.strategy == (match self.inner.strategy {
                Option::Some(s) => s,
                Option::None => SchedulingStrategy::FCFS,
            }),
            r.name@ == (match self.inner.name {
                Option::Some(n) => n@,
                Option::None => "name"@,
            }),
            r.limit == self.inner.limit,
            r.interval == self.inner.interval,
    {
        TaskQueue {
            strategy: match self.inner.strategy {
                Option::Some(s) => s,
                Option::None => SchedulingStrategy::FCFS,
            },
            name: match self.inner.name {
                Option::Some(n) => n,
                Option::None => "name".to_owned(),
            },
            limit: self.inner.limit,
            interval: self.inner.interval,
        }
    }
}

} // verus!
