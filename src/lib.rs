//! Building blocks of a message-latency benchmark: the wire form of a send
//! time, the per-scenario sample set with its order statistics, and the
//! consumer side of a scenario as a state machine.
use vstd::prelude::*;

pub mod codec;
pub mod scenario;
pub mod stats;

pub use crate::stats::{Benchmark, Report, ReportError};

verus! {

/// Number of messages that one scenario sends by default.
pub const ITERATIONS: usize = 99;

} // verus!
