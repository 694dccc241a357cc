//! The actor: a shared counter, an arena of tasks, a table of outbound calls
//! and a FIFO ready queue, driven one scheduling step at a time.

use vstd::prelude::*;
use candid::Principal;
use crate::codec::{candid_u64_args, candid_u64_reply, decode_u64_reply, encode_u64_arg};
use crate::routine::{op_at, ops, Op, Routine};
use crate::state::State;

verus! {

/// Why an outbound call did not produce a reply.
#[derive(Clone, Copy, Debug, PartialEq, Eq, Structural)]
pub enum CallError {
    /// The remote actor signalled failure, with its reject code.
    Rejected(u32),
    /// Delivery of the call could not be confirmed.
    TransportFailure,
}

/// An internal fault that ends one task, keeping what it already changed.
#[derive(Clone, Copy, Debug, PartialEq, Eq, Structural)]
pub enum Fault {
    /// The counter is at its largest value and cannot grow.
    CounterOverflow,
    /// The task table or the call table is full.
    Exhausted,
    /// The call argument could not be framed.
    Unencodable,
    /// The reply was not a single `nat64`.
    Undecodable,
}

/// How a task ended.
#[derive(Clone, Copy, Debug, PartialEq, Eq, Structural)]
pub enum Outcome {
    /// It ran to its end; holds the value of its last call reply, if it made one.
    Finished(Option<u64>),
    /// A call the task was waiting on failed with this error.
    Failed(CallError),
    /// It faulted.
    Faulted(Fault),
}

/// Where a task is in its life.
#[derive(Clone, Copy, Debug, PartialEq, Eq, Structural)]
pub enum TaskStatus {
    /// Admitted and waiting in the ready queue for its first run.
    Ready,
    /// The task the scheduler is running now.
    Running,
    /// Suspended on the outbound call with this index.
    Waiting(usize),
    /// Its call (this index) has settled; it waits in the ready queue to resume.
    Resumable(usize),
    /// Completed.
    Done(Outcome),
}

/// Where an outbound call is: it leaves `Pending` exactly once.
#[derive(Clone, Copy, Debug, PartialEq, Eq, Structural)]
pub enum CallStatus {
    Pending,
    /// A reply came; it holds the decoded number, or `None` if it did not decode.
    Resolved(Option<u64>),
    Rejected(CallError),
}

/// One task of the arena; its index is its identity.
#[derive(Clone, Copy)]
pub struct Task {
    pub routine: Routine,
    /// Position of the next operation in the routine.
    pub pc: usize,
    /// The counter value that the task's calls carry: the counter at admission,
    /// taken again by `Read`, and passed on to the tasks it spawns.
    pub arg: u64,
    pub target: Principal,
    pub status: TaskStatus,
    /// The value of the last reply the task received.
    pub last: Option<u64>,
}

/// One outbound call of the call table; its index is its handle.
#[derive(Clone, Copy)]
pub struct CallRecord {
    /// The task that issued it.
    pub task: usize,
    pub target: Principal,
    /// The number the call carries.
    pub arg: u64,
    pub status: CallStatus,
}

/// What one scheduling step did.
pub enum StepOutcome {
    /// Nothing was running and the ready queue was empty.
    Idle,
    /// The front task of the ready queue was picked; it runs now, or it has completed.
    Scheduled(usize),
    /// The running task performed one operation and goes on running.
    Advanced(usize),
    /// The running task issued a call and suspended: task, call handle, framed argument.
    Issued(usize, usize, Vec<u8>),
    /// The running task completed.
    Completed(usize),
}

/// Why `invoke` refused to admit an entry invocation.
#[derive(Clone, Copy, Debug, PartialEq, Eq, Structural)]
pub enum InvokeError {
    Exhausted,
}

/// Why a call result could not be delivered.
#[derive(Clone, Copy, Debug, PartialEq, Eq, Structural)]
pub enum SettleError {
    /// No call has this handle.
    UnknownCall,
    /// The call has settled already; a handle settles once.
    AlreadySettled,
}

/// The state of an actor as a mathematical value.
pub struct ActorView {
    pub counter: u64,
    /// The counter value when the actor was made.
    pub origin: u64,
    /// Bound on the number of tasks and on the number of calls.
    pub capacity: usize,
    pub tasks: Seq<Task>,
    pub calls: Seq<CallRecord>,
    pub ready: Seq<usize>,
    pub running: Option<usize>,
}

pub struct Actor {
    state: State,
    origin: u64,
    capacity: usize,
    tasks: Vec<Task>,
    calls: Vec<CallRecord>,
    ready: Vec<usize>,
    running: Option<usize>,
}

impl View for Actor {
    type V = ActorView;

    closed spec fn view(&self) -> ActorView {
        ActorView {
            counter: self.state.counter,
            origin: self.origin,
            capacity: self.capacity,
            tasks: self.tasks@,
            calls: self.calls@,
            ready: self.ready@,
            running: self.running,
        }
    }
}

/// `v` with task `t` replaced by `task`.
pub open spec fn with_task(v: ActorView, t: int, task: Task) -> ActorView {
    ActorView { tasks: v.tasks.update(t, task), ..v }
}

/// Task `t` of `v` completes with `o`; nothing runs afterwards.
pub open spec fn finish(v: ActorView, t: int, o: Outcome) -> ActorView {
    ActorView {
        tasks: v.tasks.update(t, Task { status: TaskStatus::Done(o), ..v.tasks[t] }),
        running: None,
        ..v
    }
}

/// A fresh task running `r` for `target` with argument `arg`.
pub open spec fn fresh_task(r: Routine, arg: u64, target: Principal) -> Task {
    Task { routine: r, pc: 0, arg, target, status: TaskStatus::Ready, last: None }
}

/// The state after admitting an entry invocation of `r`, when there is room.
pub open spec fn invoke_spec(v: ActorView, r: Routine, target: Principal) -> ActorView {
    if v.tasks.len() >= v.capacity {
        v
    } else {
        ActorView {
            tasks: v.tasks.push(fresh_task(r, v.counter, target)),
            ready: v.ready.push(v.tasks.len() as usize),
            ..v
        }
    }
}

/// Taking task `t` off the front of the ready queue `v` (already popped).
pub open spec fn schedule_spec(v: ActorView, t: usize) -> ActorView {
    if t >= v.tasks.len() {
        v
    } else {
        let task = v.tasks[t as int];
        match task.status {
            TaskStatus::Ready => ActorView {
                running: Some(t),
                ..with_task(v, t as int, Task { status: TaskStatus::Running, ..task })
            },
            TaskStatus::Resumable(c) => if c >= v.calls.len() {
                v
            } else {
                match v.calls[c as int].status {
                    CallStatus::Resolved(Some(x)) => if task.pc >= ops(task.routine).len() {
                        v
                    } else {
                        ActorView {
                        running: Some(t),
                        ..with_task(
                            v,
                            t as int,
                            Task {
                                status: TaskStatus::Running,
                                pc: (task.pc + 1) as usize,
                                last: Some(x),
                                ..task
                            },
                        )
                        }
                    },
                    CallStatus::Resolved(None) => finish(v, t as int, Outcome::Faulted(Fault::Undecodable)),
                    CallStatus::Rejected(e) => finish(v, t as int, Outcome::Failed(e)),
                    CallStatus::Pending => v,
                }
            },
            _ => v,
        }
    }
}

/// The running task `t` performs the operation at its position.
pub open spec fn advance_spec(v: ActorView, t: usize) -> ActorView {
    if t >= v.tasks.len() {
        ActorView { running: None, ..v }
    } else {
        let task = v.tasks[t as int];
        let body = ops(task.routine);
        if task.pc >= body.len() {
            finish(v, t as int, Outcome::Finished(task.last))
        } else {
            let next = Task { pc: (task.pc + 1) as usize, ..task };
            match body[task.pc as int] {
                Op::Read => with_task(v, t as int, Task { arg: v.counter, ..next }),
                Op::Increment => if v.counter == u64::MAX {
                    finish(v, t as int, Outcome::Faulted(Fault::CounterOverflow))
                } else {
                    ActorView { counter: (v.counter + 1) as u64, ..with_task(v, t as int, next) }
                },
                Op::Spawn(r) => if v.tasks.len() >= v.capacity {
                    finish(v, t as int, Outcome::Faulted(Fault::Exhausted))
                } else {
                    ActorView {
                        tasks: v.tasks.update(t as int, next).push(fresh_task(r, task.arg, task.target)),
                        ready: v.ready.push(v.tasks.len() as usize),
                        ..v
                    }
                },
                Op::Call => if candid_u64_args(task.arg) is None {
                    finish(v, t as int, Outcome::Faulted(Fault::Unencodable))
                } else if v.calls.len() >= v.capacity {
                    finish(v, t as int, Outcome::Faulted(Fault::Exhausted))
                } else {
                    ActorView {
                        tasks: v.tasks.update(
                            t as int,
                            Task { status: TaskStatus::Waiting(v.calls.len() as usize), ..task },
                        ),
                        calls: v.calls.push(
                            CallRecord {
                                task: t,
                                target: task.target,
                                arg: task.arg,
                                status: CallStatus::Pending,
                            },
                        ),
                        running: None,
                        ..v
                    }
                },
            }
        }
    }
}

/// One scheduling step: the running task performs one operation, or, when
/// none runs, the task at the front of the ready queue is taken up.
pub open spec fn step_spec(v: ActorView) -> ActorView {
    match v.running {
        Some(t) => advance_spec(v, t),
        None => if v.ready.len() == 0 {
            v
        } else {
            schedule_spec(ActorView { ready: v.ready.drop_first(), ..v }, v.ready[0])
        },
    }
}

/// The status a call takes on when `reply` is delivered for it.
pub open spec fn settled_status(reply: Result<Option<u64>, CallError>) -> CallStatus {
    match reply {
        Ok(x) => CallStatus::Resolved(x),
        Err(e) => CallStatus::Rejected(e),
    }
}

/// Whether `reply` can be delivered for call `c` now.
pub open spec fn can_settle(v: ActorView, c: usize) -> bool {
    c < v.calls.len() && v.calls[c as int].status == CallStatus::Pending
}

/// The state after delivering `reply` for the pending call `c`: the call
/// settles, and the task waiting on it is queued to resume.
pub open spec fn resolve_spec(v: ActorView, c: usize, reply: Result<Option<u64>, CallError>) -> ActorView {
    if !can_settle(v, c) {
        v
    } else {
        let call = v.calls[c as int];
        let v1 = ActorView {
            calls: v.calls.update(c as int, CallRecord { status: settled_status(reply), ..call }),
            ..v
        };
        if call.task < v.tasks.len() && v.tasks[call.task as int].status == TaskStatus::Waiting(c) {
            ActorView {
                ready: v.ready.push(call.task),
                ..with_task(
                    v1,
                    call.task as int,
                    Task { status: TaskStatus::Resumable(c), ..v.tasks[call.task as int] },
                )
            }
        } else {
            v1
        }
    }
}

/// The reply as the scheduler sees it once the bytes are decoded.
pub open spec fn decoded_reply(reply: Result<Vec<u8>, CallError>) -> Result<Option<u64>, CallError> {
    match reply {
        Ok(b) => Ok(candid_u64_reply(b@)),
        Err(e) => Err(e),
    }
}

/// What `step` reports, given the states before and after it.
pub open spec fn step_reports(v: ActorView, w: ActorView, r: StepOutcome) -> bool {
    match r {
        StepOutcome::Idle => v.running is None && v.ready.len() == 0,
        StepOutcome::Scheduled(t) => v.running is None && v.ready.len() > 0 && t == v.ready[0],
        StepOutcome::Advanced(t) => v.running == Some(t) && w.running == Some(t),
        StepOutcome::Issued(t, c, p) => {
            &&& v.running == Some(t)
            &&& t < v.tasks.len()
            &&& c == v.calls.len()
            &&& w.calls.len() == c + 1
            &&& candid_u64_args(v.tasks[t as int].arg) == Some(p@)
        },
        StepOutcome::Completed(t) => {
            &&& v.running == Some(t)
            &&& w.running is None
            &&& w.calls.len() == v.calls.len()
        },
    }
}

/// What `resolve` answers for call `c`.
pub open spec fn settle_answer(v: ActorView, c: usize) -> Result<(), SettleError> {
    if c >= v.calls.len() {
        Err(SettleError::UnknownCall)
    } else if v.calls[c as int].status != CallStatus::Pending {
        Err(SettleError::AlreadySettled)
    } else {
        Ok(())
    }
}

impl Actor {
    /// An actor whose counter starts at `counter`, with room for `capacity`
    /// tasks and `capacity` calls.
    pub fn new(counter: u64, capacity: usize) -> (a: Actor)
        ensures
            a@ == (ActorView {
                counter,
                origin: counter,
                capacity,
                tasks: Seq::empty(),
                calls: Seq::empty(),
                ready: Seq::empty(),
                running: None,
            }),
    {
        Actor {
            state: State::new(counter),
            origin: counter,
            capacity,
            tasks: Vec::new(),
            calls: Vec::new(),
            ready: Vec::new(),
            running: None,
        }
    }

    /// The shared counter.
    pub fn counter(&self) -> (r: u64)
        ensures
            r == self@.counter,
    {
        self.state.read()
    }

    /// The task with identity `t`, if there is one.
    pub fn task(&self, t: usize) -> (r: Option<Task>)
        ensures
            t < self@.tasks.len() ==> r == Some(self@.tasks[t as int]),
            t >= self@.tasks.len() ==> r is None,
    {
        if t < self.tasks.len() {
            Some(self.tasks[t])
        } else {
            None
        }
    }

    /// The call with handle `c`, if there is one.
    pub fn call(&self, c: usize) -> (r: Option<CallRecord>)
        ensures
            c < self@.calls.len() ==> r == Some(self@.calls[c as int]),
            c >= self@.calls.len() ==> r is None,
    {
        if c < self.calls.len() {
            Some(self.calls[c])
        } else {
            None
        }
    }

    /// Whether no task runs and none waits in the ready queue.
    pub fn is_quiescent(&self) -> (r: bool)
        ensures
            r == (self@.running is None && self@.ready.len() == 0),
    {
        self.running.is_none() && self.ready.len() == 0
    }

    /// Admits an entry invocation of `r` against `target`: a new task at the
    /// back of the ready queue. Fails when the task table is full.
    pub fn invoke(&mut self, r: Routine, target: Principal) -> (res: Result<usize, InvokeError>)
        ensures
            final(self)@ == invoke_spec(old(self)@, r, target),
            old(self)@.tasks.len() < old(self)@.capacity ==> res == Ok::<usize, InvokeError>(
                old(self)@.tasks.len() as usize,
            ),
            old(self)@.tasks.len() >= old(self)@.capacity ==> res == Err::<usize, InvokeError>(
                InvokeError::Exhausted,
            ),
    {
        if self.tasks.len() >= self.capacity {
            return Err(InvokeError::Exhausted);
        }
        let id = self.tasks.len();
        let task = Task {
            routine: r,
            pc: 0,
            arg: self.state.read(),
            target,
            status: TaskStatus::Ready,
            last: None,
        };
        self.tasks.push(task);
        self.ready.push(id);
        Ok(id)
    }

    fn complete(&mut self, t: usize, o: Outcome)
        requires
            t < old(self)@.tasks.len(),
        ensures
            final(self)@ == finish(old(self)@, t as int, o),
    {
        let task = self.tasks[t];
        self.tasks.set(t, Task { status: TaskStatus::Done(o), ..task });
        self.running = None;
    }

    fn schedule(&mut self, t: usize)
        ensures
            final(self)@ == schedule_spec(old(self)@, t),
    {
        if t >= self.tasks.len() {
            return;
        }
        let task = self.tasks[t];
        match task.status {
            TaskStatus::Ready => {
                self.tasks.set(t, Task { status: TaskStatus::Running, ..task });
                self.running = Some(t);
            },
            TaskStatus::Resumable(c) => {
                if c >= self.calls.len() {
                    return;
                }
                match self.calls[c].status {
                    CallStatus::Resolved(Some(x)) => {
                        if op_at(task.routine, task.pc).is_none() {
                            return;
                        }
                        proof {
                            crate::routine::lemma_ops_short(task.routine);
                        }
                        self.tasks.set(
                            t,
                            Task { status: TaskStatus::Running, pc: task.pc + 1, last: Some(x), ..task },
                        );
                        self.running = Some(t);
                    },
                    CallStatus::Resolved(None) => {
                        self.complete(t, Outcome::Faulted(Fault::Undecodable));
                    },
                    CallStatus::Rejected(e) => {
                        self.complete(t, Outcome::Failed(e));
                    },
                    CallStatus::Pending => {},
                }
            },
            _ => {},
        }
    }

    fn advance(&mut self, t: usize) -> (r: StepOutcome)
        requires
            old(self)@.running == Some(t),
        ensures
            final(self)@ == advance_spec(old(self)@, t),
            step_reports(old(self)@, final(self)@, r),
    {
        if t >= self.tasks.len() {
            self.running = None;
            return StepOutcome::Completed(t);
        }
        let task = self.tasks[t];
        match op_at(task.routine, task.pc) {
            None => {
                self.complete(t, Outcome::Finished(task.last));
                StepOutcome::Completed(t)
            },
            Some(op) => {
                proof {
                    crate::routine::lemma_ops_short(task.routine);
                }
                let next = Task { pc: task.pc + 1, ..task };
                match op {
                    Op::Read => {
                        let now = self.state.read();
                        self.tasks.set(t, Task { arg: now, ..next });
                        StepOutcome::Advanced(t)
                    },
                    Op::Increment => {
                        if self.state.increment() {
                            self.tasks.set(t, next);
                            StepOutcome::Advanced(t)
                        } else {
                            self.complete(t, Outcome::Faulted(Fault::CounterOverflow));
                            StepOutcome::Completed(t)
                        }
                    },
                    Op::Spawn(r) => {
                        if self.tasks.len() >= self.capacity {
                            self.complete(t, Outcome::Faulted(Fault::Exhausted));
                            StepOutcome::Completed(t)
                        } else {
                            let id = self.tasks.len();
                            self.tasks.set(t, next);
                            self.tasks.push(
                                Task {
                                    routine: r,
                                    pc: 0,
                                    arg: task.arg,
                                    target: task.target,
                                    status: TaskStatus::Ready,
                                    last: None,
                                },
                            );
                            self.ready.push(id);
                            StepOutcome::Advanced(t)
                        }
                    },
                    Op::Call => {
                        match encode_u64_arg(task.arg) {
                            Err(_) => {
                                self.complete(t, Outcome::Faulted(Fault::Unencodable));
                                StepOutcome::Completed(t)
                            },
                            Ok(payload) => {
                                if self.calls.len() >= self.capacity {
                                    self.complete(t, Outcome::Faulted(Fault::Exhausted));
                                    StepOutcome::Completed(t)
                                } else {
                                    let c = self.calls.len();
                                    self.calls.push(
                                        CallRecord {
                                            task: t,
                                            target: task.target,
                                            arg: task.arg,
                                            status: CallStatus::Pending,
                                        },
                                    );
                                    self.tasks.set(t, Task { status: TaskStatus::Waiting(c), ..task });
                                    self.running = None;
                                    StepOutcome::Issued(t, c, payload)
                                }
                            },
                        }
                    },
                }
            },
        }
    }

    /// One scheduling step: the running task performs its next operation,
    /// suspending at a call or completing at its end; when no task runs, the
    /// front of the ready queue is taken up (a resumed task first consumes
    /// the result of its call).
    pub fn step(&mut self) -> (r: StepOutcome)
        ensures
            final(self)@ == step_spec(old(self)@),
            step_reports(old(self)@, final(self)@, r),
    {
        match self.running {
            Some(t) => self.advance(t),
            None => {
                if self.ready.len() == 0 {
                    return StepOutcome::Idle;
                }
                let t = self.ready.remove(0);
                assert(self.ready@ =~= old(self)@.ready.drop_first());
                self.schedule(t);
                StepOutcome::Scheduled(t)
            },
        }
    }

    /// Settles the pending call `c` with `reply` and queues the task that
    /// awaits it for resumption. A handle settles once: a second delivery, or
    /// one for an unknown handle, changes nothing and is refused.
    pub fn resolve(&mut self, c: usize, reply: Result<Option<u64>, CallError>) -> (r: Result<(), SettleError>)
        ensures
            final(self)@ == resolve_spec(old(self)@, c, reply),
            r == settle_answer(old(self)@, c),
    {
        if c >= self.calls.len() {
            return Err(SettleError::UnknownCall);
        }
        let call = self.calls[c];
        match call.status {
            CallStatus::Pending => {},
            _ => {
                return Err(SettleError::AlreadySettled);
            },
        }
        let status = match reply {
            Ok(x) => CallStatus::Resolved(x),
            Err(e) => CallStatus::Rejected(e),
        };
        self.calls.set(c, CallRecord { status, ..call });
        let t = call.task;
        if t < self.tasks.len() {
            let task = self.tasks[t];
            match task.status {
                TaskStatus::Waiting(w) => {
                    if w == c {
                        self.tasks.set(t, Task { status: TaskStatus::Resumable(c), ..task });
                        self.ready.push(t);
                    }
                },
                _ => {},
            }
        }
        Ok(())
    }

    /// Delivers the raw reply of call `c`: the bytes are read as one `nat64`
    /// and the call is settled as `resolve` does.
    pub fn deliver(&mut self, c: usize, reply: Result<Vec<u8>, CallError>) -> (r: Result<(), SettleError>)
        ensures
            final(self)@ == resolve_spec(old(self)@, c, decoded_reply(reply)),
            r == settle_answer(old(self)@, c),
    {
        let decoded = match reply {
            Ok(b) => Ok(
                match decode_u64_reply(&b) {
                    Ok(x) => Some(x),
                    Err(_) => None,
                },
            ),
            Err(e) => Err(e),
        };
        self.resolve(c, decoded)
    }
}

} // verus!
