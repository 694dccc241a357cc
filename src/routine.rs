//! The programs that tasks run, written as sequences of primitive operations.

use vstd::prelude::*;

verus! {

/// A task body. The first five are entry points; the last three are bodies
/// that entry points spawn.
#[derive(Clone, Copy, Debug, PartialEq, Eq, Structural)]
pub enum Routine {
    /// Read the counter, await one call with it, then add one.
    Sequential,
    /// Read the counter, spawn a task that makes the call, add one at once.
    FireAndContinue,
    /// Read the counter, spawn two tasks that each call and then add one.
    MultiSpawn,
    /// Read the counter, spawn two tasks that each add one and then call.
    HeartbeatSpawn,
    /// Read the counter, add one, call, add one, call.
    HeartbeatAsync,
    /// Make one call.
    CallOnly,
    /// Make one call, then add one.
    CallThenIncrement,
    /// Add one, then make one call.
    IncrementThenCall,
}

/// One primitive operation of a routine. Only `Call` suspends the task.
#[derive(Clone, Copy, Debug, PartialEq, Eq, Structural)]
pub enum Op {
    /// Take the current counter as the task's call argument.
    Read,
    /// Add one to the counter.
    Increment,
    /// Issue an outbound call with the task's argument and wait for its result.
    Call,
    /// Put a new task running the given routine at the back of the ready queue.
    Spawn(Routine),
}

pub open spec fn ops(r: Routine) -> Seq<Op> {
    match r {
        Routine::Sequential => seq![Op::Read, Op::Call, Op::Increment],
        Routine::FireAndContinue => seq![Op::Read, Op::Spawn(Routine::CallOnly), Op::Increment],
        Routine::MultiSpawn => seq![
            Op::Read,
            Op::Spawn(Routine::CallThenIncrement),
            Op::Spawn(Routine::CallThenIncrement),
        ],
        Routine::HeartbeatSpawn => seq![
            Op::Read,
            Op::Spawn(Routine::IncrementThenCall),
            Op::Spawn(Routine::IncrementThenCall),
        ],
        Routine::HeartbeatAsync => seq![Op::Read, Op::Increment, Op::Call, Op::Increment, Op::Call],
        Routine::CallOnly => seq![Op::Call],
        Routine::CallThenIncrement => seq![Op::Call, Op::Increment],
        Routine::IncrementThenCall => seq![Op::Increment, Op::Call],
    }
}

/// How many `Increment` operations `s` holds.
pub open spec fn count_increments(s: Seq<Op>) -> nat
    decreases s.len(),
{
    if s.len() == 0 {
        0
    } else {
        count_increments(s.drop_last()) + if s.last() == Op::Increment {
            1nat
        } else {
            0nat
        }
    }
}

/// How much a routine adds to the counter when it runs to its end.
pub open spec fn routine_increments(r: Routine) -> nat {
    count_increments(ops(r))
}

/// How much the first `pc` operations of `r` add to the counter.
pub open spec fn increments_before(r: Routine, pc: int) -> nat {
    count_increments(ops(r).take(pc))
}

pub proof fn lemma_ops_short(r: Routine)
    ensures
        ops(r).len() <= 5,
{
}

pub proof fn lemma_increments_step(r: Routine, pc: int)
    requires
        0 <= pc < ops(r).len(),
    ensures
        increments_before(r, pc + 1) == increments_before(r, pc) + if ops(r)[pc] == Op::Increment {
            1nat
        } else {
            0nat
        },
{
    let s = ops(r);
    assert(s.take(pc + 1).drop_last() =~= s.take(pc));
    assert(s.take(pc + 1).last() == s[pc]);
}

pub proof fn lemma_increments_all(r: Routine)
    ensures
        increments_before(r, ops(r).len() as int) == routine_increments(r),
{
    assert(ops(r).take(ops(r).len() as int) =~= ops(r));
}

/// The operation at position `pc` of `r`, if `r` has one there.
pub fn op_at(r: Routine, pc: usize) -> (o: Option<Op>)
    ensures
        pc < ops(r).len() ==> o == Some(ops(r)[pc as int]),
        pc >= ops(r).len() ==> o is None,
{
    let body: Vec<Op> = match r {
        Routine::Sequential => vec![Op::Read, Op::Call, Op::Increment],
        Routine::FireAndContinue => vec![Op::Read, Op::Spawn(Routine::CallOnly), Op::Increment],
        Routine::MultiSpawn => vec![
            Op::Read,
            Op::Spawn(Routine::CallThenIncrement),
            Op::Spawn(Routine::CallThenIncrement),
        ],
        Routine::HeartbeatSpawn => vec![
            Op::Read,
            Op::Spawn(Routine::IncrementThenCall),
            Op::Spawn(Routine::IncrementThenCall),
        ],
        Routine::HeartbeatAsync => vec![Op::Read, Op::Increment, Op::Call, Op::Increment, Op::Call],
        Routine::CallOnly => vec![Op::Call],
        Routine::CallThenIncrement => vec![Op::Call, Op::Increment],
        Routine::IncrementThenCall => vec![Op::Increment, Op::Call],
    };
    assert(body@ =~= ops(r));
    if pc < body.len() {
        Some(body[pc])
    } else {
        None
    }
}

} // verus!
