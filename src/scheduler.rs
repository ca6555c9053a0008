use vstd::prelude::*;
use crate::error::CycleError;

verus! {

/// Seconds that continuous mode waits between two cycles.
pub const CYCLE_INTERVAL_SECS: u64 = 60;

/// How cycles are driven.
#[derive(Clone, Copy, Debug, PartialEq, Eq, Structural)]
pub enum RunMode {
    /// Run a cycle, sleep, repeat; a failed cycle is only reported.
    Continuous,
    /// Run one cycle and hand its outcome back.
    SingleShot,
}

/// What the scheduler does once a cycle has ended.
#[derive(Clone, Copy, Debug)]
pub enum SchedulerAction {
    Sleep { secs: u64 },
    Exit(Result<(), CycleError>),
}

/// The scheduler's decision after a cycle with the given outcome.
pub fn after_cycle(mode: RunMode, outcome: Result<(), CycleError>) -> (r: SchedulerAction)
    ensures
        mode is Continuous ==> r == (SchedulerAction::Sleep { secs: CYCLE_INTERVAL_SECS }),
        mode is SingleShot ==> r == SchedulerAction::Exit(outcome),
{
    match mode {
        RunMode::Continuous => SchedulerAction::Sleep { secs: CYCLE_INTERVAL_SECS },
        RunMode::SingleShot => SchedulerAction::Exit(outcome),
    }
}

} // verus!
