//! The laws of the task lifecycle, stated over the store's transition
//! predicates and proved once and for all.

use vstd::prelude::*;

use crate::periodic::{bootstrap_spec, init_effect, periodic_task_kind};
use crate::queue::SchedulingStrategy;
use crate::store::{
    batch_inserted_views, claim_post, claimed_ids_contain, claimed_view, complete_result,
    eligible, failed_result, failed_view, filter_kind_queue, inserted_view, matches_kind_queue,
    store_wf, wf_row,
};
use crate::tasks::{is_terminal, NewTaskView, TaskState, TaskView};

verus! {

/// One step of the task lifecycle: an insert, a batch insert, a claim, a
/// completion, a recorded failure, or an administrative state change.
pub open spec fn lifecycle_step(pre: Seq<TaskView>, post: Seq<TaskView>) -> bool {
    ||| (exists|spec: NewTaskView, now: int|
        post == pre.push(inserted_view(spec, pre.len() as int, now)))
    ||| (exists|specs: Seq<NewTaskView>, now: int|
        post == pre + batch_inserted_views(specs, pre.len() as int, now))
    ||| (exists|
        ret: Seq<TaskView>,
        queue: Seq<char>,
        strategy: SchedulingStrategy,
        limit: int,
        label: Seq<char>,
        now: int,
    |
        claim_post(pre, post, ret, queue, strategy, limit, label, now))
    ||| (exists|id: int, r: Result<(), crate::store::TaskStoreError>|
        complete_result(pre, post, id, r))
    ||| (exists|id: int, msg: Seq<char>, now: int, r: Result<(), crate::store::TaskStoreError>|
        failed_result(pre, post, id, msg, now, r))
    ||| (exists|id: int, st: TaskState|
        0 <= id < pre.len() && crate::store::admin_transition_allowed(pre[id].state, st) && post
            == pre.update(id, TaskView { state: st, ..pre[id] }))
    ||| post == pre
}

/// Unique claim: whatever two consecutive claims ask for, no row is handed
/// to both of them — the first claim leaves its rows running, and a
/// running row is never eligible for the second.
pub proof fn lemma_unique_claim(
    s0: Seq<TaskView>,
    s1: Seq<TaskView>,
    s2: Seq<TaskView>,
    r1: Seq<TaskView>,
    r2: Seq<TaskView>,
    queue1: Seq<char>,
    queue2: Seq<char>,
    strategy1: SchedulingStrategy,
    strategy2: SchedulingStrategy,
    limit1: int,
    limit2: int,
    label1: Seq<char>,
    label2: Seq<char>,
    now1: int,
    now2: int,
)
    requires
        claim_post(s0, s1, r1, queue1, strategy1, limit1, label1, now1),
        claim_post(s1, s2, r2, queue2, strategy2, limit2, label2, now2),
    ensures
        forall|k1: int, k2: int|
            0 <= k1 < r1.len() && 0 <= k2 < r2.len() ==> (#[trigger] r1[k1]).id != (
            #[trigger] r2[k2]).id,
{
    assert forall|k1: int, k2: int|
        0 <= k1 < r1.len() && 0 <= k2 < r2.len() implies (#[trigger] r1[k1]).id != (
    #[trigger] r2[k2]).id by {
        let id = r1[k1].id;
        assert(s1[id] == r1[k1]);
        assert(s1[id].state is Running);
        if r2[k2].id == id {
            assert(eligible(s1, id, queue2, now2));
        }
    }
}

/// Monotone attempts: no lifecycle step ever lowers a row's attempt
/// counter.
pub proof fn lemma_monotone_attempts(pre: Seq<TaskView>, post: Seq<TaskView>)
    requires
        lifecycle_step(pre, post),
    ensures
        forall|j: int|
            0 <= j < pre.len() ==> (#[trigger] post[j]).attempt >= pre[j].attempt,
{
    assert forall|j: int|
        0 <= j < pre.len() implies (#[trigger] post[j]).attempt >= pre[j].attempt by {
        if exists|
            ret: Seq<TaskView>,
            queue: Seq<char>,
            strategy: SchedulingStrategy,
            limit: int,
            label: Seq<char>,
            now: int,
        |
            claim_post(pre, post, ret, queue, strategy, limit, label, now) {
            let (ret, queue, strategy, limit, label, now) = choose|
                ret: Seq<TaskView>,
                queue: Seq<char>,
                strategy: SchedulingStrategy,
                limit: int,
                label: Seq<char>,
                now: int,
            |
                claim_post(pre, post, ret, queue, strategy, limit, label, now);
            if claimed_ids_contain(ret, j) {
                let k = choose|k: int| 0 <= k < ret.len() && (#[trigger] ret[k]).id == j;
                assert(post[j] == ret[k]);
                assert(ret[k] == claimed_view(pre[j], label, now));
            }
        }
    }
}

/// Strict increase on claim: every claimed row comes back with exactly one
/// more attempt than it had.
pub proof fn lemma_claim_increments(
    pre: Seq<TaskView>,
    post: Seq<TaskView>,
    ret: Seq<TaskView>,
    queue: Seq<char>,
    strategy: SchedulingStrategy,
    limit: int,
    label: Seq<char>,
    now: int,
)
    requires
        claim_post(pre, post, ret, queue, strategy, limit, label, now),
    ensures
        forall|k: int|
            0 <= k < ret.len() ==> (#[trigger] ret[k]).attempt == pre[ret[k].id].attempt + 1
                && post[ret[k].id].attempt == pre[ret[k].id].attempt + 1,
{
}

/// Terminal stability: once a row is completed, cancelled or discarded, no
/// lifecycle step moves it again.
pub proof fn lemma_terminal_stability(pre: Seq<TaskView>, post: Seq<TaskView>)
    requires
        lifecycle_step(pre, post),
        store_wf(pre),
    ensures
        forall|j: int|
            0 <= j < pre.len() && is_terminal((#[trigger] pre[j]).state) ==> post[j] == pre[j],
{
    assert forall|j: int|
        0 <= j < pre.len() && is_terminal((#[trigger] pre[j]).state) implies post[j] == pre[j] by {
        if exists|
            ret: Seq<TaskView>,
            queue: Seq<char>,
            strategy: SchedulingStrategy,
            limit: int,
            label: Seq<char>,
            now: int,
        |
            claim_post(pre, post, ret, queue, strategy, limit, label, now) {
            let (ret, queue, strategy, limit, label, now) = choose|
                ret: Seq<TaskView>,
                queue: Seq<char>,
                strategy: SchedulingStrategy,
                limit: int,
                label: Seq<char>,
                now: int,
            |
                claim_post(pre, post, ret, queue, strategy, limit, label, now);
            if claimed_ids_contain(ret, j) {
                let k = choose|k: int| 0 <= k < ret.len() && (#[trigger] ret[k]).id == j;
                assert(eligible(pre, ret[k].id, queue, now));
            }
        }
    }
}

/// Retry bound: recording a failure discards the row exactly when its
/// attempts are used up, and otherwise schedules a retry; either way it
/// appends exactly one error entry. Together with the strict increase on
/// claim, a task whose handler always fails is discarded at the failure
/// that follows its last allowed attempt.
pub proof fn lemma_retry_bound(
    pre: Seq<TaskView>,
    post: Seq<TaskView>,
    id: int,
    msg: Seq<char>,
    now: int,
)
    requires
        failed_result(pre, post, id, msg, now, Result::Ok(())),
    ensures
        post[id].state is Discarded <==> pre[id].attempt >= pre[id].max_attempts,
        post[id].state is Retryable <==> pre[id].attempt < pre[id].max_attempts,
        post[id].errors.len() == pre[id].errors.len() + 1,
        post[id].errors.last() == (now, msg),
        pre[id].attempt < pre[id].max_attempts ==> post[id].scheduled_at == Option::Some(
            now + crate::store::backoff_secs(pre[id].attempt),
        ),
{
    assert(post[id] == failed_view(pre[id], msg, now));
}

/// One failed execution cycle: a claim takes the row at attempt `a` to
/// `a + 1`, and the failure that follows discards it exactly when that
/// used its last allowed attempt, so a handler that always fails reaches
/// `discarded` at the failure after attempt `max_attempts`.
pub proof fn lemma_retry_cycle(
    s0: Seq<TaskView>,
    s1: Seq<TaskView>,
    s2: Seq<TaskView>,
    ret: Seq<TaskView>,
    queue: Seq<char>,
    strategy: SchedulingStrategy,
    limit: int,
    label: Seq<char>,
    now1: int,
    k: int,
    msg: Seq<char>,
    now2: int,
)
    requires
        claim_post(s0, s1, ret, queue, strategy, limit, label, now1),
        0 <= k < ret.len(),
        failed_result(s1, s2, ret[k].id, msg, now2, Result::Ok(())),
    ensures
        s2[ret[k].id].attempt == s0[ret[k].id].attempt + 1,
        s2[ret[k].id].state is Discarded <==> s0[ret[k].id].attempt + 1 >= s0[
            ret[k].id
        ].max_attempts,
        s2[ret[k].id].state is Retryable <==> s0[ret[k].id].attempt + 1 < s0[
            ret[k].id
        ].max_attempts,
{
    let id = ret[k].id;
    assert(s1[id] == claimed_view(s0[id], label, now1));
    assert(s2[id] == failed_view(s1[id], msg, now2));
}

/// Dependency gating: a row whose predecessor has not completed is never
/// returned by a claim.
pub proof fn lemma_dependency_gating(
    pre: Seq<TaskView>,
    post: Seq<TaskView>,
    ret: Seq<TaskView>,
    queue: Seq<char>,
    strategy: SchedulingStrategy,
    limit: int,
    label: Seq<char>,
    now: int,
    j: int,
    d: int,
)
    requires
        claim_post(pre, post, ret, queue, strategy, limit, label, now),
        0 <= j < pre.len(),
        pre[j].depends_on == Option::Some(d),
        !(0 <= d < pre.len() && pre[d].state is Completed),
    ensures
        !claimed_ids_contain(ret, j),
{
    if claimed_ids_contain(ret, j) {
        let k = choose|k: int| 0 <= k < ret.len() && (#[trigger] ret[k]).id == j;
        assert(eligible(pre, j, queue, now));
    }
}

/// Round trip of payloads: no lifecycle step ever changes the args of an
/// existing row, so the payload a handler receives is the payload the
/// producer supplied.
pub proof fn lemma_args_round_trip(pre: Seq<TaskView>, post: Seq<TaskView>)
    requires
        lifecycle_step(pre, post),
    ensures
        forall|j: int| 0 <= j < pre.len() ==> (#[trigger] post[j]).args == pre[j].args,
{
    assert forall|j: int|
        0 <= j < pre.len() implies (#[trigger] post[j]).args == pre[j].args by {
        if exists|
            ret: Seq<TaskView>,
            queue: Seq<char>,
            strategy: SchedulingStrategy,
            limit: int,
            label: Seq<char>,
            now: int,
        |
            claim_post(pre, post, ret, queue, strategy, limit, label, now) {
            let (ret, queue, strategy, limit, label, now) = choose|
                ret: Seq<TaskView>,
                queue: Seq<char>,
                strategy: SchedulingStrategy,
                limit: int,
                label: Seq<char>,
                now: int,
            |
                claim_post(pre, post, ret, queue, strategy, limit, label, now);
            if claimed_ids_contain(ret, j) {
                let k = choose|k: int| 0 <= k < ret.len() && (#[trigger] ret[k]).id == j;
                assert(post[j] == ret[k]);
                assert(ret[k] == claimed_view(pre[j], label, now));
            }
        }
    }
}

/// A freshly inserted row carries exactly the payload of its
/// specification.
pub proof fn lemma_insert_args(pre: Seq<TaskView>, spec: NewTaskView, now: int)
    ensures
        pre.push(inserted_view(spec, pre.len() as int, now)).last().args == spec.args,
{
}

/// Periodic idempotence: running the bootstrap twice with the same
/// non-empty jobs map inserts the bootstrap row exactly once — the second
/// run finds the first one's row and changes nothing.
pub proof fn lemma_periodic_idempotent(
    s0: Seq<TaskView>,
    s1: Seq<TaskView>,
    s2: Seq<TaskView>,
    jobs_count: int,
    queue: Seq<char>,
    now1: int,
    now2: int,
)
    requires
        jobs_count > 0,
        init_effect(s0, s1, jobs_count, queue, now1),
        init_effect(s1, s2, jobs_count, queue, now2),
    ensures
        s2 == s1,
        s1.len() <= s0.len() + 1,
{
    if filter_kind_queue(s0, periodic_task_kind(), queue).len() == 0 {
        let row = inserted_view(bootstrap_spec(queue, now1), s0.len() as int, now1);
        assert(s1 == s0.push(row));
        assert(s1.drop_last() =~= s0);
        assert(s1.last() == row);
        assert(matches_kind_queue(row, periodic_task_kind(), queue));
        assert(filter_kind_queue(s1, periodic_task_kind(), queue) == filter_kind_queue(
            s0,
            periodic_task_kind(),
            queue,
        ).push(row));
    }
}

} // verus!
