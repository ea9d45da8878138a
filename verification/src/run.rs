//! The life of one driver invocation.
//!
//! A run plans, then executes, and ends completed or failed. It completes
//! only when every planned operation has reported success and the producing
//! end of the status channel has been released.

use vstd::prelude::*;

verus! {

/// Where a run stands.
#[derive(Debug, Clone, Copy, PartialEq, Eq, Structural)]
pub enum Phase {
    /// The plan is being made.
    Planning,
    /// Operations are being carried out.
    Executing,
    /// Every operation succeeded and the channel was released.
    Completed,
    /// An operation failed for good.
    Failed,
}

/// What happens to a run.
#[derive(Debug, Clone, Copy, PartialEq, Eq, Structural)]
pub enum RunEvent {
    /// The plan is made and holds this many operations.
    Planned(u64),
    /// One more operation succeeded.
    Succeeded,
    /// An operation failed for good.
    Failed,
    /// The producing end of the status channel was released.
    Released,
}

/// The mathematical value of a [`Run`].
pub struct RunState {
    pub phase: Phase,
    /// The number of operations planned.
    pub planned: nat,
    /// The number of operations that have reported success.
    pub succeeded: nat,
}

impl RunState {
    /// The state of a run that has just begun.
    pub open spec fn initial() -> RunState {
        RunState { phase: Phase::Planning, planned: 0, succeeded: 0 }
    }

    /// What holds of every run: nothing succeeds before it is planned or
    /// more often than planned, and a completed run has seen every planned
    /// operation succeed.
    pub open spec fn valid(self) -> bool {
        &&& self.succeeded <= self.planned <= u64::MAX
        &&& self.phase == Phase::Planning ==> self.planned == 0
        &&& self.phase == Phase::Completed ==> self.succeeded == self.planned
    }

    /// Whether the run has ended.
    pub open spec fn ended(self) -> bool {
        self.phase == Phase::Completed || self.phase == Phase::Failed
    }

    /// The state after `event`.
    ///
    /// Planning ends with the plan. While executing, successes are counted;
    /// a release completes the run if every operation has succeeded, and
    /// fails it otherwise. A failure fails a run that has not ended. An event
    /// that does not fit the phase changes nothing.
    pub open spec fn after(self, event: RunEvent) -> RunState {
        match (self.phase, event) {
            (Phase::Planning, RunEvent::Planned(n)) => RunState {
                phase: Phase::Executing,
                planned: n as nat,
                succeeded: 0,
            },
            (Phase::Executing, RunEvent::Succeeded) => if self.succeeded < self.planned {
                RunState { succeeded: self.succeeded + 1, ..self }
            } else {
                self
            },
            (Phase::Executing, RunEvent::Released) => if self.succeeded == self.planned {
                RunState { phase: Phase::Completed, ..self }
            } else {
                RunState { phase: Phase::Failed, ..self }
            },
            (Phase::Planning, RunEvent::Failed) => RunState { phase: Phase::Failed, ..self },
            (Phase::Executing, RunEvent::Failed) => RunState { phase: Phase::Failed, ..self },
            _ => self,
        }
    }
}

/// A run stays valid, whatever happens to it; once ended it never changes;
/// and it completes only through the release that follows the last success.
pub proof fn run_laws(state: RunState, event: RunEvent)
    requires
        state.valid(),
    ensures
        state.after(event).valid(),
        state.ended() ==> state.after(event) == state,
        state.after(event).phase == Phase::Completed && !state.ended() ==> {
            &&& state.phase == Phase::Executing
            &&& event == RunEvent::Released
            &&& state.succeeded == state.planned
        },
{
}

/// One driver invocation in progress.
pub struct Run {
    phase: Phase,
    planned: u64,
    succeeded: u64,
}

impl View for Run {
    type V = RunState;

    closed spec fn view(&self) -> RunState {
        RunState {
            phase: self.phase,
            planned: self.planned as nat,
            succeeded: self.succeeded as nat,
        }
    }
}

impl Run {
    #[verifier::type_invariant]
    spec fn inv(self) -> bool {
        self@.valid()
    }

    /// A run that has just begun: planning.
    pub fn new() -> (run: Run)
        ensures
            run@ == RunState::initial(),
            run@.valid(),
    {
        Run { phase: Phase::Planning, planned: 0, succeeded: 0 }
    }

    /// Where the run stands.
    pub fn phase(&self) -> (phase: Phase)
        ensures
            phase == self@.phase,
            self@.valid(),
    {
        proof {
            use_type_invariant(self);
        }
        self.phase
    }

    /// The number of operations that have not reported success yet.
    pub fn pending(&self) -> (n: u64)
        ensures
            n == self@.planned - self@.succeeded,
    {
        proof {
            use_type_invariant(self);
        }
        self.planned - self.succeeded
    }

    /// Takes one event and moves the run on.
    pub fn record(&mut self, event: RunEvent)
        ensures
            final(self)@ == old(self)@.after(event),
            final(self)@.valid(),
    {
        proof {
            use_type_invariant(&*self);
            run_laws(self@, event);
        }
        let next = match (self.phase, event) {
            (Phase::Planning, RunEvent::Planned(n)) => Run {
                phase: Phase::Executing,
                planned: n,
                succeeded: 0,
            },
            (Phase::Executing, RunEvent::Succeeded) => if self.succeeded < self.planned {
                Run { phase: self.phase, planned: self.planned, succeeded: self.succeeded + 1 }
            } else {
                Run { phase: self.phase, planned: self.planned, succeeded: self.succeeded }
            },
            (Phase::Executing, RunEvent::Released) => if self.succeeded == self.planned {
                Run { phase: Phase::Completed, planned: self.planned, succeeded: self.succeeded }
            } else {
                Run { phase: Phase::Failed, planned: self.planned, succeeded: self.succeeded }
            },
            (Phase::Planning, RunEvent::Failed) => Run {
                phase: Phase::Failed,
                planned: self.planned,
                succeeded: self.succeeded,
            },
            (Phase::Executing, RunEvent::Failed) => Run {
                phase: Phase::Failed,
                planned: self.planned,
                succeeded: self.succeeded,
            },
            _ => Run { phase: self.phase, planned: self.planned, succeeded: self.succeeded },
        };
        *self = next;
    }
}

} // verus!
