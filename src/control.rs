use vstd::prelude::*;

verus! {

/// Whether the simulation is stepping or waiting for manual edits.
#[derive(Clone, Copy, Debug, PartialEq, Eq, Structural)]
pub enum RunMode {
    Running,
    Paused,
}

/// A control signal from the outside control surface.
#[derive(Clone, Copy, Debug, PartialEq, Eq, Structural)]
pub enum Signal {
    Start,
    Stop,
}

/// The mode that follows `mode` once `signal` has been delivered.
pub open spec fn mode_after(mode: RunMode, signal: Signal) -> RunMode {
    match signal {
        Signal::Start => RunMode::Running,
        Signal::Stop => RunMode::Paused,
    }
}

impl RunMode {
    /// The mode a simulation starts in.
    pub fn initial() -> (r: RunMode)
        ensures
            r == RunMode::Paused,
    {
        RunMode::Paused
    }

    /// `Start` moves to `Running`, `Stop` to `Paused`; either is a no-op when
    /// the mode is already the target.
    pub fn after(self, signal: Signal) -> (r: RunMode)
        ensures
            r == mode_after(self, signal),
    {
        match signal {
            Signal::Start => RunMode::Running,
            Signal::Stop => RunMode::Paused,
        }
    }

    pub fn is_running(self) -> (r: bool)
        ensures
            r == (self == RunMode::Running),
    {
        match self {
            RunMode::Running => true,
            RunMode::Paused => false,
        }
    }
}

/// Delivering the same signal twice in a row leaves the mode where delivering
/// it once does.
pub proof fn signal_is_idempotent(mode: RunMode, signal: Signal)
    ensures
        mode_after(mode_after(mode, signal), signal) == mode_after(mode, signal),
{
}

} // verus!
