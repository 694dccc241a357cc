use candid::Principal;
use one_way_caller::actor::{
    Actor, CallError, CallStatus, Fault, InvokeError, Outcome, SettleError, StepOutcome, TaskStatus,
};
use one_way_caller::routine::Routine;

fn host() -> Principal {
    Principal::from_text("ryjl3-tyaaa-aaaaa-aaaba-cai").unwrap()
}

fn reply(x: u64) -> Vec<u8> {
    candid::encode_one(x).unwrap()
}

fn args(x: u64) -> Vec<u8> {
    candid::encode_args((x,)).unwrap()
}

fn status(a: &Actor, t: usize) -> TaskStatus {
    a.task(t).unwrap().status
}

/// Steps until nothing runs and nothing is ready; returns the calls issued, in order.
fn drain(a: &mut Actor) -> Vec<(usize, usize, Vec<u8>)> {
    let mut issued = Vec::new();
    for _ in 0..1000 {
        match a.step() {
            StepOutcome::Idle => return issued,
            StepOutcome::Issued(t, c, p) => issued.push((t, c, p)),
            _ => {}
        }
    }
    panic!("the actor did not come to rest");
}

#[test]
fn sequential_from_zero() {
    let mut a = Actor::new(0, 16);
    assert_eq!(a.invoke(Routine::Sequential, host()), Ok(0));
    assert!(matches!(a.step(), StepOutcome::Scheduled(0)));
    assert!(matches!(a.step(), StepOutcome::Advanced(0)));
    match a.step() {
        StepOutcome::Issued(t, c, p) => {
            assert_eq!((t, c), (0, 0));
            assert_eq!(p, args(0));
        }
        _ => panic!("expected the call to be issued"),
    }
    assert_eq!(a.counter(), 0);
    assert_eq!(status(&a, 0), TaskStatus::Waiting(0));
    assert!(matches!(a.step(), StepOutcome::Idle));
    assert_eq!(a.deliver(0, Ok(reply(1649925875799523900))), Ok(()));
    assert_eq!(a.counter(), 0);
    assert!(matches!(a.step(), StepOutcome::Scheduled(0)));
    assert!(matches!(a.step(), StepOutcome::Advanced(0)));
    assert_eq!(a.counter(), 1);
    assert!(matches!(a.step(), StepOutcome::Completed(0)));
    assert_eq!(status(&a, 0), TaskStatus::Done(Outcome::Finished(Some(1649925875799523900))));
    assert!(a.is_quiescent());
}

#[test]
fn sequential_failed_call_keeps_counter() {
    let mut a = Actor::new(5, 16);
    a.invoke(Routine::Sequential, host()).unwrap();
    let issued = drain(&mut a);
    assert_eq!(issued.len(), 1);
    assert_eq!(a.deliver(0, Err(CallError::Rejected(4))), Ok(()));
    drain(&mut a);
    assert_eq!(a.counter(), 5);
    assert_eq!(status(&a, 0), TaskStatus::Done(Outcome::Failed(CallError::Rejected(4))));
    assert_eq!(a.call(0).unwrap().status, CallStatus::Rejected(CallError::Rejected(4)));
}

#[test]
fn sequential_transport_failure() {
    let mut a = Actor::new(5, 16);
    a.invoke(Routine::Sequential, host()).unwrap();
    drain(&mut a);
    assert_eq!(a.resolve(0, Err(CallError::TransportFailure)), Ok(()));
    drain(&mut a);
    assert_eq!(a.counter(), 5);
    assert_eq!(status(&a, 0), TaskStatus::Done(Outcome::Failed(CallError::TransportFailure)));
}

#[test]
fn undecodable_reply_faults_task() {
    let mut a = Actor::new(3, 16);
    a.invoke(Routine::Sequential, host()).unwrap();
    drain(&mut a);
    assert_eq!(a.deliver(0, Ok(vec![1, 2, 3])), Ok(()));
    assert_eq!(a.call(0).unwrap().status, CallStatus::Resolved(None));
    drain(&mut a);
    assert_eq!(a.counter(), 3);
    assert_eq!(status(&a, 0), TaskStatus::Done(Outcome::Faulted(Fault::Undecodable)));
}

#[test]
fn fire_and_continue_from_seven() {
    let mut a = Actor::new(7, 16);
    assert_eq!(a.invoke(Routine::FireAndContinue, host()), Ok(0));
    assert!(matches!(a.step(), StepOutcome::Scheduled(0)));
    assert!(matches!(a.step(), StepOutcome::Advanced(0)));
    assert!(matches!(a.step(), StepOutcome::Advanced(0)));
    assert_eq!(status(&a, 1), TaskStatus::Ready);
    assert_eq!(a.counter(), 7);
    assert!(matches!(a.step(), StepOutcome::Advanced(0)));
    assert_eq!(a.counter(), 8);
    assert!(matches!(a.step(), StepOutcome::Completed(0)));
    assert_eq!(status(&a, 0), TaskStatus::Done(Outcome::Finished(None)));
    assert!(a.call(0).is_none());
    let issued = drain(&mut a);
    assert_eq!(issued, vec![(1, 0, args(7))]);
    assert_eq!(a.call(0).unwrap().arg, 7);
    assert_eq!(a.deliver(0, Ok(reply(1649926545448466400))), Ok(()));
    drain(&mut a);
    assert_eq!(a.counter(), 8);
    assert_eq!(status(&a, 1), TaskStatus::Done(Outcome::Finished(Some(1649926545448466400))));
}

#[test]
fn fire_and_continue_absorbs_failure() {
    let mut a = Actor::new(7, 16);
    a.invoke(Routine::FireAndContinue, host()).unwrap();
    drain(&mut a);
    a.deliver(0, Err(CallError::TransportFailure)).unwrap();
    drain(&mut a);
    assert_eq!(a.counter(), 8);
    assert_eq!(status(&a, 0), TaskStatus::Done(Outcome::Finished(None)));
    assert_eq!(status(&a, 1), TaskStatus::Done(Outcome::Failed(CallError::TransportFailure)));
}

fn multi_spawn_with_order(second_first: bool) {
    let mut a = Actor::new(8, 16);
    a.invoke(Routine::MultiSpawn, host()).unwrap();
    let issued = drain(&mut a);
    assert_eq!(issued, vec![(1, 0, args(8)), (2, 1, args(8))]);
    assert_eq!(a.counter(), 8);
    assert_eq!(status(&a, 0), TaskStatus::Done(Outcome::Finished(None)));
    let (p, q) = if second_first { (1, 0) } else { (0, 1) };
    a.deliver(p, Ok(reply(100))).unwrap();
    drain(&mut a);
    assert_eq!(a.counter(), 9);
    a.deliver(q, Ok(reply(200))).unwrap();
    drain(&mut a);
    assert_eq!(a.counter(), 10);
    assert!(matches!(status(&a, 1), TaskStatus::Done(Outcome::Finished(Some(_)))));
    assert!(matches!(status(&a, 2), TaskStatus::Done(Outcome::Finished(Some(_)))));
}

#[test]
fn multi_spawn_from_eight_in_order() {
    multi_spawn_with_order(false);
}

#[test]
fn multi_spawn_from_eight_reversed() {
    multi_spawn_with_order(true);
}

#[test]
fn multi_spawn_both_resolved_before_running() {
    let mut a = Actor::new(8, 16);
    a.invoke(Routine::MultiSpawn, host()).unwrap();
    drain(&mut a);
    a.deliver(1, Ok(reply(1))).unwrap();
    a.deliver(0, Ok(reply(2))).unwrap();
    drain(&mut a);
    assert_eq!(a.counter(), 10);
}

#[test]
fn heartbeat_spawn_increments_before_calls() {
    let mut a = Actor::new(20, 16);
    a.invoke(Routine::HeartbeatSpawn, host()).unwrap();
    let issued = drain(&mut a);
    assert_eq!(a.counter(), 22);
    assert_eq!(issued, vec![(1, 0, args(20)), (2, 1, args(20))]);
    a.deliver(0, Ok(reply(5))).unwrap();
    a.deliver(1, Err(CallError::Rejected(3))).unwrap();
    drain(&mut a);
    assert_eq!(a.counter(), 22);
}

#[test]
fn heartbeat_async_two_calls() {
    let mut a = Actor::new(6, 16);
    a.invoke(Routine::HeartbeatAsync, host()).unwrap();
    let issued = drain(&mut a);
    assert_eq!(issued, vec![(0, 0, args(6))]);
    assert_eq!(a.counter(), 7);
    a.deliver(0, Ok(reply(11))).unwrap();
    let issued = drain(&mut a);
    assert_eq!(issued, vec![(0, 1, args(6))]);
    assert_eq!(a.counter(), 8);
    a.deliver(1, Ok(reply(12))).unwrap();
    drain(&mut a);
    assert_eq!(a.counter(), 8);
    assert_eq!(status(&a, 0), TaskStatus::Done(Outcome::Finished(Some(12))));
}

#[test]
fn settles_exactly_once() {
    let mut a = Actor::new(0, 16);
    a.invoke(Routine::Sequential, host()).unwrap();
    drain(&mut a);
    assert_eq!(a.call(0).unwrap().status, CallStatus::Pending);
    assert_eq!(a.deliver(0, Ok(reply(9))), Ok(()));
    assert_eq!(a.deliver(0, Ok(reply(10))), Err(SettleError::AlreadySettled));
    assert_eq!(a.resolve(0, Err(CallError::TransportFailure)), Err(SettleError::AlreadySettled));
    assert_eq!(a.call(0).unwrap().status, CallStatus::Resolved(Some(9)));
    assert_eq!(a.deliver(1, Ok(reply(9))), Err(SettleError::UnknownCall));
    drain(&mut a);
    assert_eq!(status(&a, 0), TaskStatus::Done(Outcome::Finished(Some(9))));
}

#[test]
fn invoke_refused_when_full() {
    let mut a = Actor::new(0, 1);
    assert_eq!(a.invoke(Routine::Sequential, host()), Ok(0));
    assert_eq!(a.invoke(Routine::Sequential, host()), Err(InvokeError::Exhausted));
    assert!(a.task(1).is_none());
}

#[test]
fn spawn_faults_when_full() {
    let mut a = Actor::new(4, 1);
    a.invoke(Routine::FireAndContinue, host()).unwrap();
    drain(&mut a);
    assert_eq!(status(&a, 0), TaskStatus::Done(Outcome::Faulted(Fault::Exhausted)));
    assert_eq!(a.counter(), 4);
}

#[test]
fn call_faults_when_call_table_full() {
    let mut a = Actor::new(4, 2);
    a.invoke(Routine::Sequential, host()).unwrap();
    a.invoke(Routine::Sequential, host()).unwrap();
    drain(&mut a);
    a.deliver(0, Ok(reply(1))).unwrap();
    a.deliver(1, Ok(reply(1))).unwrap();
    drain(&mut a);
    assert_eq!(a.counter(), 6);
    let mut b = Actor::new(4, 2);
    b.invoke(Routine::HeartbeatAsync, host()).unwrap();
    drain(&mut b);
    b.deliver(0, Ok(reply(1))).unwrap();
    drain(&mut b);
    b.invoke(Routine::Sequential, host()).unwrap();
    drain(&mut b);
    assert_eq!(status(&b, 1), TaskStatus::Done(Outcome::Faulted(Fault::Exhausted)));
}

#[test]
fn counter_overflow_faults_task() {
    let mut a = Actor::new(u64::MAX, 4);
    a.invoke(Routine::HeartbeatAsync, host()).unwrap();
    let issued = drain(&mut a);
    assert!(issued.is_empty());
    assert_eq!(a.counter(), u64::MAX);
    assert_eq!(status(&a, 0), TaskStatus::Done(Outcome::Faulted(Fault::CounterOverflow)));
}

#[test]
fn counter_never_decreases() {
    let mut a = Actor::new(2, 64);
    let mut seen = a.counter();
    let routines = [
        Routine::Sequential,
        Routine::FireAndContinue,
        Routine::MultiSpawn,
        Routine::HeartbeatSpawn,
        Routine::HeartbeatAsync,
    ];
    let mut next_call = 0usize;
    for round in 0..10usize {
        a.invoke(routines[round % 5], host()).unwrap();
        for _ in 0..3 {
            a.step();
            assert!(a.counter() >= seen);
            seen = a.counter();
        }
        while a.call(next_call).is_some() {
            let r = if next_call % 3 == 0 { Err(CallError::TransportFailure) } else { Ok(reply(1)) };
            let _ = a.deliver(next_call, r);
            next_call += 1;
            a.step();
            assert!(a.counter() >= seen);
            seen = a.counter();
        }
    }
}

#[test]
fn interleaved_invocations_add_up() {
    let mut a = Actor::new(100, 64);
    a.invoke(Routine::MultiSpawn, host()).unwrap();
    a.invoke(Routine::Sequential, host()).unwrap();
    a.step();
    a.invoke(Routine::HeartbeatAsync, host()).unwrap();
    a.invoke(Routine::FireAndContinue, host()).unwrap();
    a.invoke(Routine::HeartbeatSpawn, host()).unwrap();
    let mut issued = drain(&mut a);
    while !issued.is_empty() {
        let (_, c, _) = issued.pop().unwrap();
        a.deliver(c, Ok(reply(c as u64))).unwrap();
        issued.extend(drain(&mut a));
    }
    // multi-spawn 2, sequential 1, heartbeat-async 2, fire-and-continue 1, heartbeat-spawn 2
    assert_eq!(a.counter(), 108);
    for t in 0..9 {
        assert!(matches!(status(&a, t), TaskStatus::Done(Outcome::Finished(_))));
    }
}
