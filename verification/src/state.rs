//! The run mode and the state of a worker.

use vstd::prelude::*;

verus! {

/// How often a worker executes its step graph.
#[derive(Clone, Copy, Debug, PartialEq, Eq, Structural)]
pub enum RunMode {
    /// On every cycle.
    Continuous,
    /// Once per request; the flag tells whether a request is pending.
    OneShot(bool),
}

/// Where a worker stands in its cycle.
#[derive(Clone, Copy, Debug, PartialEq, Eq, Structural)]
pub enum WorkerState {
    /// Built, and not run yet.
    Created,
    /// Idle.
    Available,
    /// Commands are submitted and the device has not reported them done.
    Working,
    /// The device has finished the submitted work; the results can be read.
    FinishedWorking,
}

impl RunMode {
    /// The mode once a run has completed: a one-shot request is used up.
    pub open spec fn spec_completed(self) -> RunMode {
        match self {
            RunMode::Continuous => RunMode::Continuous,
            RunMode::OneShot(_) => RunMode::OneShot(false),
        }
    }

    /// The mode once a run is requested: a one-shot worker has a request
    /// pending.
    pub open spec fn spec_requested(self) -> RunMode {
        match self {
            RunMode::Continuous => RunMode::Continuous,
            RunMode::OneShot(_) => RunMode::OneShot(true),
        }
    }

    /// Whether a worker in this mode runs at all: every mode but a one-shot
    /// without a pending request.
    pub open spec fn spec_active(self) -> bool {
        self != RunMode::OneShot(false)
    }

    /// The mode once a run has completed.
    #[verifier::when_used_as_spec(spec_completed)]
    pub fn completed(self) -> (mode: RunMode)
        ensures
            mode == self.spec_completed(),
    {
        match self {
            RunMode::Continuous => RunMode::Continuous,
            RunMode::OneShot(_) => RunMode::OneShot(false),
        }
    }

    /// The mode once a run is requested.
    #[verifier::when_used_as_spec(spec_requested)]
    pub fn requested(self) -> (mode: RunMode)
        ensures
            mode == self.spec_requested(),
    {
        match self {
            RunMode::Continuous => RunMode::Continuous,
            RunMode::OneShot(_) => RunMode::OneShot(true),
        }
    }

    /// Whether a worker in this mode runs at all.
    #[verifier::when_used_as_spec(spec_active)]
    pub fn active(self) -> (active: bool)
        ensures
            active == self.spec_active(),
    {
        match self {
            RunMode::Continuous => true,
            RunMode::OneShot(pending) => pending,
        }
    }
}

} // verus!
