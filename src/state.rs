//! The actor's shared state: one counter that only ever grows.

use vstd::prelude::*;

verus! {

/// The persistent fields of the actor.
pub struct State {
    pub counter: u64,
}

impl Default for State {
    fn default() -> (r: State)
        ensures
            r.counter == 0,
    {
        State { counter: 0 }
    }
}

impl State {
    pub fn new(counter: u64) -> (r: State)
        ensures
            r.counter == counter,
    {
        State { counter }
    }

    /// The current value of the counter.
    pub fn read(&self) -> (r: u64)
        ensures
            r == self.counter,
    {
        self.counter
    }

    /// Adds one to the counter; at `u64::MAX` the counter is left as it is and
    /// `false` comes back.
    pub fn increment(&mut self) -> (r: bool)
        ensures
            r == (old(self).counter < u64::MAX),
            r ==> final(self).counter == old(self).counter + 1,
            !r ==> final(self).counter == old(self).counter,
    {
        if self.counter < u64::MAX {
            self.counter = self.counter + 1;
            true
        } else {
            false
        }
    }
}

} // verus!
