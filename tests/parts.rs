use one_way_caller::routine::{op_at, Op, Routine};
use one_way_caller::state::State;

#[test]
fn state_increments_and_stops_at_max() {
    let mut s = State::default();
    assert_eq!(s.read(), 0);
    assert!(s.increment());
    assert_eq!(s.read(), 1);
    let mut m = State::new(u64::MAX);
    assert!(!m.increment());
    assert_eq!(m.read(), u64::MAX);
}

#[test]
fn routine_operations() {
    assert_eq!(op_at(Routine::Sequential, 0), Some(Op::Read));
    assert_eq!(op_at(Routine::Sequential, 1), Some(Op::Call));
    assert_eq!(op_at(Routine::Sequential, 2), Some(Op::Increment));
    assert_eq!(op_at(Routine::Sequential, 3), None);
    assert_eq!(op_at(Routine::FireAndContinue, 1), Some(Op::Spawn(Routine::CallOnly)));
    assert_eq!(op_at(Routine::HeartbeatSpawn, 2), Some(Op::Spawn(Routine::IncrementThenCall)));
    assert_eq!(op_at(Routine::HeartbeatAsync, 4), Some(Op::Call));
    assert_eq!(op_at(Routine::IncrementThenCall, 0), Some(Op::Increment));
}
