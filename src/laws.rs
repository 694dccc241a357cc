//! What holds of the actor over whole runs: every interleaving of entry
//! invocations, scheduling steps and call deliveries.

use vstd::prelude::*;
use candid::Principal;
use crate::actor::{
    settle_answer, SettleError,
    can_settle, finish, fresh_task, invoke_spec, resolve_spec, schedule_spec, settled_status,
    step_spec, advance_spec, with_task, ActorView, CallError, CallRecord, CallStatus, Fault, Outcome,
    Task, TaskStatus,
};
use crate::codec::candid_u64_args;
use crate::routine::{increments_before, lemma_increments_all, lemma_increments_step, ops, routine_increments, Op, Routine};

verus! {

/// Something that can happen to the actor.
pub enum Event {
    /// An entry invocation of the routine against the target is admitted.
    Invoke(Routine, Principal),
    /// The scheduler takes one step.
    Step,
    /// The environment delivers the result of a call.
    Resolve(usize, Result<Option<u64>, CallError>),
}

pub open spec fn apply_event(v: ActorView, e: Event) -> ActorView {
    match e {
        Event::Invoke(r, target) => invoke_spec(v, r, target),
        Event::Step => step_spec(v),
        Event::Resolve(c, reply) => resolve_spec(v, c, reply),
    }
}

/// The state after the events `evs`, in order.
pub open spec fn apply_events(v: ActorView, evs: Seq<Event>) -> ActorView
    decreases evs.len(),
{
    if evs.len() == 0 {
        v
    } else {
        apply_events(apply_event(v, evs[0]), evs.drop_first())
    }
}

/// `n` scheduling steps with nothing else happening.
pub open spec fn steps(v: ActorView, n: nat) -> ActorView
    decreases n,
{
    if n == 0 {
        v
    } else {
        steps(step_spec(v), (n - 1) as nat)
    }
}

/// A freshly made actor.
pub open spec fn fresh(v: ActorView) -> bool {
    &&& v.counter == v.origin
    &&& v.tasks.len() == 0
    &&& v.calls.len() == 0
    &&& v.ready.len() == 0
    &&& v.running is None
}

pub open spec fn quiescent(v: ActorView) -> bool {
    v.running is None && v.ready.len() == 0
}

/// What task `task` has added to the counter so far.
pub open spec fn done_increments(task: Task) -> nat {
    increments_before(task.routine, task.pc as int)
}

/// What all of `tasks` have added to the counter so far.
pub open spec fn sum_done(tasks: Seq<Task>) -> nat
    decreases tasks.len(),
{
    if tasks.len() == 0 {
        0
    } else {
        sum_done(tasks.drop_last()) + done_increments(tasks.last())
    }
}

/// What all of `tasks` add to the counter when each runs to its end.
pub open spec fn sum_routines(tasks: Seq<Task>) -> nat
    decreases tasks.len(),
{
    if tasks.len() == 0 {
        0
    } else {
        sum_routines(tasks.drop_last()) + routine_increments(tasks.last().routine)
    }
}

pub open spec fn finished(task: Task) -> bool {
    task.status matches TaskStatus::Done(Outcome::Finished(_))
}

/// A task is within its routine, a finished one is exactly at its end, and
/// a suspended one stands at a `Call`.
pub open spec fn task_ok(task: Task) -> bool {
    let body = ops(task.routine);
    &&& task.pc <= body.len()
    &&& finished(task) ==> task.pc == body.len()
    &&& (task.status is Waiting || task.status is Resumable) ==> task.pc < body.len() && body[task.pc as int]
        == Op::Call
}

/// The invariant of every reachable state: each task is in order, the running
/// task is marked so, and the counter is its starting value plus what the
/// tasks have added.
pub open spec fn wf(v: ActorView) -> bool {
    &&& forall|t: int| 0 <= t < v.tasks.len() ==> #[trigger] task_ok(v.tasks[t])
    &&& v.running matches Some(t) ==> t < v.tasks.len() && v.tasks[t as int].status == TaskStatus::Running
    &&& v.counter == v.origin + sum_done(v.tasks)
}

proof fn lemma_sum_update(s: Seq<Task>, i: int, x: Task)
    requires
        0 <= i < s.len(),
    ensures
        sum_done(s.update(i, x)) + done_increments(s[i]) == sum_done(s) + done_increments(x),
    decreases s.len(),
{
    if i == s.len() - 1 {
        assert(s.update(i, x).drop_last() =~= s.drop_last());
    } else {
        lemma_sum_update(s.drop_last(), i, x);
        assert(s.update(i, x).drop_last() =~= s.drop_last().update(i, x));
    }
}

proof fn lemma_sum_push(s: Seq<Task>, x: Task)
    ensures
        sum_done(s.push(x)) == sum_done(s) + done_increments(x),
{
    assert(s.push(x).drop_last() =~= s);
}

proof fn lemma_fresh_task(r: Routine, arg: u64, target: Principal)
    ensures
        done_increments(fresh_task(r, arg, target)) == 0,
        task_ok(fresh_task(r, arg, target)),
{
    assert(ops(r).take(0) =~= Seq::<Op>::empty());
}

/// Adding a fresh task keeps the invariant.
proof fn lemma_push_wf(v: ActorView, x: Task, ready: Seq<usize>)
    requires
        wf(v),
        x == fresh_task(x.routine, x.arg, x.target),
    ensures
        wf(ActorView { tasks: v.tasks.push(x), ready, ..v }),
{
    lemma_sum_push(v.tasks, x);
    lemma_fresh_task(x.routine, x.arg, x.target);
    let w = ActorView { tasks: v.tasks.push(x), ready, ..v };
    assert forall|t: int| 0 <= t < w.tasks.len() implies #[trigger] task_ok(w.tasks[t]) by {
        if t < v.tasks.len() {
            assert(task_ok(v.tasks[t]));
        }
    }
}

proof fn lemma_invoke_wf(v: ActorView, r: Routine, target: Principal)
    requires
        wf(v),
    ensures
        wf(invoke_spec(v, r, target)),
{
    if v.tasks.len() < v.capacity {
        lemma_push_wf(v, fresh_task(r, v.counter, target), v.ready.push(v.tasks.len() as usize));
    }
}

/// Replacing task `t` by one at the same place of the same routine keeps the
/// invariant (the counter moves along with the tasks' share).
proof fn lemma_replace_wf(v: ActorView, t: int, x: Task, counter: u64)
    requires
        wf(v),
        0 <= t < v.tasks.len(),
        x.routine == v.tasks[t].routine,
        task_ok(x),
        v.running == Some(t as usize) ==> x.status == TaskStatus::Running,
        counter + done_increments(v.tasks[t]) == v.counter + done_increments(x),
    ensures
        wf(ActorView { counter, ..with_task(v, t, x) }),
{
    lemma_sum_update(v.tasks, t, x);
    let w = with_task(v, t, x);
    assert forall|i: int| 0 <= i < w.tasks.len() implies #[trigger] task_ok(w.tasks[i]) by {
        if i != t {
            assert(task_ok(v.tasks[i]));
        }
    }
}

proof fn lemma_finish_wf(v: ActorView, t: int, o: Outcome)
    requires
        wf(v),
        0 <= t < v.tasks.len(),
        o is Finished ==> v.tasks[t].pc >= ops(v.tasks[t].routine).len(),
    ensures
        wf(finish(v, t, o)),
{
    let v0 = ActorView { running: None, ..v };
    assert(task_ok(v.tasks[t]));
    lemma_replace_wf(v0, t, Task { status: TaskStatus::Done(o), ..v.tasks[t] }, v.counter);
    assert(finish(v, t, o) == ActorView { counter: v.counter, ..with_task(v0, t, Task { status: TaskStatus::Done(o), ..v.tasks[t] }) });
}

proof fn lemma_schedule_wf(v: ActorView, t: usize)
    requires
        wf(v),
        v.running is None,
    ensures
        wf(schedule_spec(v, t)),
{
    if t < v.tasks.len() {
        let task = v.tasks[t as int];
        assert(task_ok(task));
        match task.status {
            TaskStatus::Ready => {
                lemma_replace_wf(v, t as int, Task { status: TaskStatus::Running, ..task }, v.counter);
            },
            TaskStatus::Resumable(c) => {
                if c < v.calls.len() {
                    match v.calls[c as int].status {
                        CallStatus::Resolved(Some(x)) => {
                            let n = Task {
                                status: TaskStatus::Running,
                                pc: (task.pc + 1) as usize,
                                last: Some(x),
                                ..task
                            };
                            lemma_increments_step(task.routine, task.pc as int);
                            lemma_replace_wf(v, t as int, n, v.counter);
                        },
                        CallStatus::Resolved(None) => {
                            lemma_finish_wf(v, t as int, Outcome::Faulted(Fault::Undecodable));
                        },
                        CallStatus::Rejected(e) => {
                            lemma_finish_wf(v, t as int, Outcome::Failed(e));
                        },
                        CallStatus::Pending => {},
                    }
                }
            },
            _ => {},
        }
    }
}

proof fn lemma_advance_wf(v: ActorView, t: usize)
    requires
        wf(v),
        v.running == Some(t),
    ensures
        wf(advance_spec(v, t)),
{
    let task = v.tasks[t as int];
    let body = ops(task.routine);
    assert(task_ok(task));
    if task.pc >= body.len() {
        lemma_finish_wf(v, t as int, Outcome::Finished(task.last));
    } else {
        let next = Task { pc: (task.pc + 1) as usize, ..task };
        lemma_increments_step(task.routine, task.pc as int);
        match body[task.pc as int] {
            Op::Read => {
                lemma_replace_wf(v, t as int, Task { arg: v.counter, ..next }, v.counter);
            },
            Op::Increment => {
                if v.counter == u64::MAX {
                    lemma_finish_wf(v, t as int, Outcome::Faulted(Fault::CounterOverflow));
                } else {
                    lemma_replace_wf(v, t as int, next, (v.counter + 1) as u64);
                }
            },
            Op::Spawn(r) => {
                if v.tasks.len() >= v.capacity {
                    lemma_finish_wf(v, t as int, Outcome::Faulted(Fault::Exhausted));
                } else {
                    lemma_replace_wf(v, t as int, next, v.counter);
                    let v1 = with_task(v, t as int, next);
                    lemma_push_wf(v1, fresh_task(r, task.arg, task.target), v.ready.push(v.tasks.len() as usize));
                }
            },
            Op::Call => {
                if candid_u64_args(task.arg) is None {
                    lemma_finish_wf(v, t as int, Outcome::Faulted(Fault::Unencodable));
                } else if v.calls.len() >= v.capacity {
                    lemma_finish_wf(v, t as int, Outcome::Faulted(Fault::Exhausted));
                } else {
                    let v0 = ActorView {
                        running: None,
                        calls: v.calls.push(
                            CallRecord {
                                task: t,
                                target: task.target,
                                arg: task.arg,
                                status: CallStatus::Pending,
                            },
                        ),
                        ..v
                    };
                    let x = Task { status: TaskStatus::Waiting(v.calls.len() as usize), ..task };
                    lemma_replace_wf(v0, t as int, x, v.counter);
                    assert(advance_spec(v, t) == ActorView { counter: v.counter, ..with_task(v0, t as int, x) });
                }
            },
        }
    }
}

proof fn lemma_step_wf(v: ActorView)
    requires
        wf(v),
    ensures
        wf(step_spec(v)),
{
    match v.running {
        Some(t) => lemma_advance_wf(v, t),
        None => {
            if v.ready.len() > 0 {
                lemma_schedule_wf(ActorView { ready: v.ready.drop_first(), ..v }, v.ready[0]);
            }
        },
    }
}

proof fn lemma_resolve_wf(v: ActorView, c: usize, reply: Result<Option<u64>, CallError>)
    requires
        wf(v),
    ensures
        wf(resolve_spec(v, c, reply)),
{
    if can_settle(v, c) {
        let call = v.calls[c as int];
        let v1 = ActorView {
            calls: v.calls.update(c as int, CallRecord { status: settled_status(reply), ..call }),
            ..v
        };
        if call.task < v.tasks.len() && v.tasks[call.task as int].status == TaskStatus::Waiting(c) {
            assert(task_ok(v.tasks[call.task as int]));
            lemma_replace_wf(
                v1,
                call.task as int,
                Task { status: TaskStatus::Resumable(c), ..v.tasks[call.task as int] },
                v.counter,
            );
        }
    }
}

proof fn lemma_event_wf(v: ActorView, e: Event)
    requires
        wf(v),
    ensures
        wf(apply_event(v, e)),
{
    match e {
        Event::Invoke(r, target) => lemma_invoke_wf(v, r, target),
        Event::Step => lemma_step_wf(v),
        Event::Resolve(c, reply) => lemma_resolve_wf(v, c, reply),
    }
}

/// Every state reached from a fresh actor satisfies the invariant.
pub proof fn lemma_reachable_wf(v: ActorView, evs: Seq<Event>)
    requires
        wf(v),
    ensures
        wf(apply_events(v, evs)),
    decreases evs.len(),
{
    if evs.len() > 0 {
        lemma_event_wf(v, evs[0]);
        lemma_reachable_wf(apply_event(v, evs[0]), evs.drop_first());
    }
}


proof fn lemma_event_frame(v: ActorView, e: Event)
    ensures
        apply_event(v, e).counter >= v.counter,
        apply_event(v, e).origin == v.origin,
        apply_event(v, e).calls.len() >= v.calls.len(),
        forall|c: int|
            0 <= c < v.calls.len() && v.calls[c].status != CallStatus::Pending ==> #[trigger] apply_event(
                v,
                e,
            ).calls[c] == v.calls[c],
{
}

/// The counter never decreases, whatever happens to the actor.
pub proof fn lemma_counter_monotone(v: ActorView, evs: Seq<Event>)
    ensures
        apply_events(v, evs).counter >= v.counter,
    decreases evs.len(),
{
    if evs.len() > 0 {
        lemma_event_frame(v, evs[0]);
        lemma_counter_monotone(apply_event(v, evs[0]), evs.drop_first());
    }
}

proof fn lemma_origin_kept(v: ActorView, evs: Seq<Event>)
    ensures
        apply_events(v, evs).origin == v.origin,
    decreases evs.len(),
{
    if evs.len() > 0 {
        lemma_event_frame(v, evs[0]);
        lemma_origin_kept(apply_event(v, evs[0]), evs.drop_first());
    }
}

proof fn lemma_all_finished_sum(tasks: Seq<Task>)
    requires
        forall|t: int| 0 <= t < tasks.len() ==> #[trigger] task_ok(tasks[t]),
        forall|t: int| 0 <= t < tasks.len() ==> #[trigger] finished(tasks[t]),
    ensures
        sum_done(tasks) == sum_routines(tasks),
    decreases tasks.len(),
{
    if tasks.len() > 0 {
        let last = tasks.last();
        assert(task_ok(tasks[tasks.len() - 1]));
        assert(finished(tasks[tasks.len() - 1]));
        lemma_increments_all(last.routine);
        let init = tasks.drop_last();
        assert forall|t: int| 0 <= t < init.len() implies #[trigger] task_ok(init[t]) && finished(init[t]) by {
            assert(task_ok(tasks[t]));
            assert(finished(tasks[t]));
        }
        lemma_all_finished_sum(init);
    }
}

/// Whatever the interleaving of invocations, steps and deliveries, the
/// counter is its starting value plus what the tasks have added so far; once
/// every task has finished, that is the sum of what their routines add.
pub proof fn lemma_no_cross_task_corruption(v: ActorView, evs: Seq<Event>)
    requires
        fresh(v),
    ensures
        apply_events(v, evs).counter == v.counter + sum_done(apply_events(v, evs).tasks),
        (forall|t: int|
            0 <= t < apply_events(v, evs).tasks.len() ==> #[trigger] finished(apply_events(v, evs).tasks[t]))
            ==> apply_events(v, evs).counter == v.counter + sum_routines(apply_events(v, evs).tasks),
{
    lemma_reachable_wf(v, evs);
    lemma_origin_kept(v, evs);
    let w = apply_events(v, evs);
    if forall|t: int| 0 <= t < w.tasks.len() ==> #[trigger] finished(w.tasks[t]) {
        lemma_all_finished_sum(w.tasks);
    }
}

/// A call that has settled stays as it settled, whatever happens afterwards.
pub proof fn lemma_settled_call_stays(v: ActorView, evs: Seq<Event>, c: int)
    requires
        0 <= c < v.calls.len(),
        v.calls[c].status != CallStatus::Pending,
    ensures
        c < apply_events(v, evs).calls.len(),
        apply_events(v, evs).calls[c] == v.calls[c],
    decreases evs.len(),
{
    if evs.len() > 0 {
        lemma_event_frame(v, evs[0]);
        assert(apply_event(v, evs[0]).calls[c] == v.calls[c]);
        lemma_settled_call_stays(apply_event(v, evs[0]), evs.drop_first(), c);
    }
}

/// Delivering a result for a pending call settles it as resolved or as
/// rejected, and any later delivery for the same handle is refused and
/// changes nothing.
pub proof fn lemma_settles_once(
    v: ActorView,
    c: usize,
    reply: Result<Option<u64>, CallError>,
    again: Result<Option<u64>, CallError>,
)
    requires
        can_settle(v, c),
    ensures
        settle_answer(v, c) == Ok::<(), SettleError>(()),
        resolve_spec(v, c, reply).calls[c as int].status == settled_status(reply),
        settled_status(reply) != CallStatus::Pending,
        settle_answer(resolve_spec(v, c, reply), c) == Err::<(), SettleError>(SettleError::AlreadySettled),
        resolve_spec(resolve_spec(v, c, reply), c, again) == resolve_spec(v, c, reply),
{
}

/// The state after admitting `r` and then taking `n` scheduling steps.
pub open spec fn after_invoke(v: ActorView, r: Routine, target: Principal, n: nat) -> ActorView {
    steps(invoke_spec(v, r, target), n)
}

/// The sequential pattern on an idle actor whose counter is `C`: it reads
/// `C`, issues its call with `C` and suspends with the counter still `C`.
/// Once the call resolves the counter becomes `C + 1` and the caller gets the
/// reply; if the call fails the counter stays `C` and the caller gets the error.
pub proof fn lemma_sequential_causality(v: ActorView, target: Principal, reply: Result<Option<u64>, CallError>)
    requires
        quiescent(v),
        v.tasks.len() < v.capacity,
        v.calls.len() < v.capacity,
        v.counter < u64::MAX,
        candid_u64_args(v.counter) is Some,
    ensures
        ({
            let t = v.tasks.len() as int;
            let c = v.calls.len() as usize;
            let s = after_invoke(v, Routine::Sequential, target, 3);
            &&& s.counter == v.counter
            &&& quiescent(s)
            &&& s.tasks[t].status == TaskStatus::Waiting(c)
            &&& s.calls.len() == c + 1
            &&& s.calls[c as int].arg == v.counter
            &&& s.calls[c as int].status == CallStatus::Pending
            &&& (reply matches Ok(Some(x)) ==> {
                let d = steps(resolve_spec(s, c, reply), 3);
                &&& d.counter == v.counter + 1
                &&& quiescent(d)
                &&& d.tasks[t].status == TaskStatus::Done(Outcome::Finished(Some(x)))
            })
            &&& (reply matches Err(e) ==> {
                let d = steps(resolve_spec(s, c, reply), 1);
                &&& d.counter == v.counter
                &&& quiescent(d)
                &&& d.tasks[t].status == TaskStatus::Done(Outcome::Failed(e))
            })
        }),
{
    let t = v.tasks.len() as usize;
    let c = v.calls.len() as usize;
    let v0 = invoke_spec(v, Routine::Sequential, target);
    let v1 = step_spec(v0);
    let v2 = step_spec(v1);
    let v3 = step_spec(v2);
    assert(v1.tasks[t as int].status == TaskStatus::Running);
    assert(v2.tasks[t as int].pc == 1);
    assert(v2.tasks[t as int].arg == v.counter);
    assert(v3 == steps(v0, 3)) by {
        reveal_with_fuel(steps, 4);
    }
    let r = resolve_spec(v3, c, reply);
    assert(r.ready =~= seq![t]);
    let d1 = step_spec(r);
    match reply {
        Ok(Some(x)) => {
            assert(d1.tasks[t as int].pc == 2);
            let d2 = step_spec(d1);
            let d3 = step_spec(d2);
            assert(d3 == steps(r, 3)) by {
                reveal_with_fuel(steps, 4);
            }
        },
        Err(e) => {
            assert(d1 == steps(r, 1)) by {
                reveal_with_fuel(steps, 2);
            }
        },
        _ => {},
    }
}

/// The fire-and-continue pattern on an idle actor whose counter is `C`: the
/// entry completes with the counter already `C + 1`, while the task it spawned
/// has not yet run and no call is out; that task then issues its call with `C`.
pub proof fn lemma_fire_and_continue(v: ActorView, target: Principal)
    requires
        quiescent(v),
        v.tasks.len() + 2 <= v.capacity,
        v.calls.len() < v.capacity,
        v.counter < u64::MAX,
        candid_u64_args(v.counter) is Some,
    ensures
        ({
            let t = v.tasks.len() as int;
            let c = v.calls.len() as int;
            let a = after_invoke(v, Routine::FireAndContinue, target, 5);
            let b = steps(a, 2);
            &&& a.counter == v.counter + 1
            &&& a.tasks[t].status == TaskStatus::Done(Outcome::Finished(None))
            &&& a.calls == v.calls
            &&& a.running is None
            &&& a.ready == seq![(t + 1) as usize]
            &&& a.tasks[t + 1] == fresh_task(Routine::CallOnly, v.counter, target)
            &&& b.counter == v.counter + 1
            &&& b.tasks[t + 1].status == TaskStatus::Waiting(c as usize)
            &&& b.calls[c].arg == v.counter
            &&& b.calls[c].status == CallStatus::Pending
        }),
{
    let t = v.tasks.len() as int;
    let v0 = invoke_spec(v, Routine::FireAndContinue, target);
    let v1 = step_spec(v0);
    let v2 = step_spec(v1);
    let v3 = step_spec(v2);
    assert(v3.ready =~= seq![(t + 1) as usize]);
    let v4 = step_spec(v3);
    let v5 = step_spec(v4);
    assert(v5 == steps(v0, 5)) by {
        reveal_with_fuel(steps, 6);
    }
    let v6 = step_spec(v5);
    assert(v6.ready =~= Seq::<usize>::empty());
    let v7 = step_spec(v6);
    assert(v7 == steps(v5, 2)) by {
        reveal_with_fuel(steps, 3);
    }
}

/// The multi-spawn pattern on an idle actor whose counter is `C`: the entry
/// completes at once, both spawned tasks issue their calls with `C`, and once
/// both calls have resolved and both tasks have run, the counter is `C + 2`,
/// whichever call resolved first.
pub proof fn lemma_multi_spawn(v: ActorView, target: Principal, x1: u64, x2: u64, first_resolves_first: bool)
    requires
        quiescent(v),
        v.tasks.len() + 3 <= v.capacity,
        v.calls.len() + 2 <= v.capacity,
        v.counter + 2 <= u64::MAX,
        candid_u64_args(v.counter) is Some,
    ensures
        ({
            let t = v.tasks.len() as int;
            let c = v.calls.len() as usize;
            let a = after_invoke(v, Routine::MultiSpawn, target, 5);
            let b = steps(a, 4);
            let (p, q) = if first_resolves_first {
                (c, (c + 1) as usize)
            } else {
                ((c + 1) as usize, c)
            };
            let d = steps(resolve_spec(resolve_spec(b, p, Ok(Some(x1))), q, Ok(Some(x2))), 6);
            &&& a.counter == v.counter
            &&& a.tasks[t].status == TaskStatus::Done(Outcome::Finished(None))
            &&& b.counter == v.counter
            &&& b.calls[c as int].arg == v.counter
            &&& b.calls[c + 1].arg == v.counter
            &&& b.calls[c as int].status == CallStatus::Pending
            &&& b.calls[c + 1].status == CallStatus::Pending
            &&& d.counter == v.counter + 2
            &&& quiescent(d)
            &&& finished(d.tasks[t + 1])
            &&& finished(d.tasks[t + 2])
        }),
{
    let t = v.tasks.len() as int;
    let c = v.calls.len() as usize;
    let v0 = invoke_spec(v, Routine::MultiSpawn, target);
    let v1 = step_spec(v0);
    let v2 = step_spec(v1);
    let v3 = step_spec(v2);
    let v4 = step_spec(v3);
    assert(v4.ready =~= seq![(t + 1) as usize, (t + 2) as usize]);
    let v5 = step_spec(v4);
    assert(v5 == steps(v0, 5)) by {
        reveal_with_fuel(steps, 6);
    }
    let b1 = step_spec(v5);
    assert(b1.ready =~= seq![(t + 2) as usize]);
    let b2 = step_spec(b1);
    let b3 = step_spec(b2);
    assert(b3.ready =~= Seq::<usize>::empty());
    let b4 = step_spec(b3);
    assert(b4 == steps(v5, 4)) by {
        reveal_with_fuel(steps, 5);
    }
    assert(b4.tasks[t + 1].status == TaskStatus::Waiting(c));
    assert(b4.tasks[t + 2].status == TaskStatus::Waiting((c + 1) as usize));
    lemma_two_calls_settle(b4, (t + 1) as usize, (t + 2) as usize, c, (c + 1) as usize, x1, x2, first_resolves_first);
}

/// Two tasks running `CallThenIncrement`, each suspended on its own call: once
/// both calls resolve, in either order, and the actor runs, both finish and
/// the counter has grown by two.
proof fn lemma_two_calls_settle(
    b: ActorView,
    s1: usize,
    s2: usize,
    c1: usize,
    c2: usize,
    x1: u64,
    x2: u64,
    first_resolves_first: bool,
)
    requires
        quiescent(b),
        b.counter + 2 <= u64::MAX,
        s1 < b.tasks.len(),
        s2 < b.tasks.len(),
        s1 != s2,
        c1 < b.calls.len(),
        c2 < b.calls.len(),
        c1 != c2,
        b.tasks[s1 as int].routine == Routine::CallThenIncrement,
        b.tasks[s2 as int].routine == Routine::CallThenIncrement,
        b.tasks[s1 as int].pc == 0,
        b.tasks[s2 as int].pc == 0,
        b.tasks[s1 as int].status == TaskStatus::Waiting(c1),
        b.tasks[s2 as int].status == TaskStatus::Waiting(c2),
        b.calls[c1 as int].task == s1,
        b.calls[c2 as int].task == s2,
        b.calls[c1 as int].status == CallStatus::Pending,
        b.calls[c2 as int].status == CallStatus::Pending,
    ensures
        ({
            let (p, q) = if first_resolves_first {
                (c1, c2)
            } else {
                (c2, c1)
            };
            let d = steps(resolve_spec(resolve_spec(b, p, Ok(Some(x1))), q, Ok(Some(x2))), 6);
            &&& d.counter == b.counter + 2
            &&& quiescent(d)
            &&& finished(d.tasks[s1 as int])
            &&& finished(d.tasks[s2 as int])
        }),
{
    let (p, q) = if first_resolves_first {
        (c1, c2)
    } else {
        (c2, c1)
    };
    let (u1, u2) = if first_resolves_first {
        (s1, s2)
    } else {
        (s2, s1)
    };
    let r1 = resolve_spec(b, p, Ok(Some(x1)));
    let r2 = resolve_spec(r1, q, Ok(Some(x2)));
    assert(r2.ready =~= seq![u1, u2]);
    let d1 = step_spec(r2);
    assert(d1.ready =~= seq![u2]);
    let d2 = step_spec(d1);
    let d3 = step_spec(d2);
    assert(d3.counter == b.counter + 1);
    let d4 = step_spec(d3);
    assert(d4.ready =~= Seq::<usize>::empty());
    let d5 = step_spec(d4);
    let d6 = step_spec(d5);
    assert(d6 == steps(r2, 6)) by {
        reveal_with_fuel(steps, 7);
    }
}

} // verus!
