//! A single-threaded cooperative actor: entry invocations and spawned tasks
//! share one counter and interleave only at outbound calls.

pub mod codec;
pub mod routine;
pub mod state;
pub mod actor;
pub mod laws;
