use vstd::prelude::*;
use crate::error::HarnessError;

verus! {

/// The stage of a trial. Exactly one is active at any time.
#[derive(Clone, Copy, Debug, PartialEq, Eq, Hash, Structural)]
pub enum LifecyclePhase {
    Loading,
    Running,
    End,
}

/// What the resource loader answers when asked about a handle.
#[derive(Clone, Copy, Debug, PartialEq, Eq, Structural)]
pub enum LoadStatus {
    Unloaded,
    Loading,
    Loaded,
    Failed,
}

/// What makes a trial leave a phase.
#[derive(Clone, Copy, Debug, PartialEq, Eq, Structural)]
pub enum Trigger {
    /// The shared resource reported `Loaded`.
    ResourceLoaded,
    /// Every workload unit has run in the current tick.
    WorkloadDrained,
}

impl LifecyclePhase {
    /// The position of a phase in the lifecycle.
    pub open spec fn rank(self) -> nat {
        match self {
            LifecyclePhase::Loading => 0,
            LifecyclePhase::Running => 1,
            LifecyclePhase::End => 2,
        }
    }

    pub fn is_terminal(&self) -> (terminal: bool)
        ensures
            terminal == (*self == LifecyclePhase::End),
    {
        match self {
            LifecyclePhase::End => true,
            _ => false,
        }
    }
}

/// The transition table: the phase that `trigger` leads to from `phase`, if
/// it leads anywhere.
pub open spec fn transition(phase: LifecyclePhase, trigger: Trigger) -> Option<LifecyclePhase> {
    match (phase, trigger) {
        (LifecyclePhase::Loading, Trigger::ResourceLoaded) => Some(LifecyclePhase::Running),
        (LifecyclePhase::Running, Trigger::WorkloadDrained) => Some(LifecyclePhase::End),
        _ => None,
    }
}

/// Looks `phase` and `trigger` up in the transition table.
pub fn next_phase(phase: LifecyclePhase, trigger: Trigger) -> (next: Result<
    LifecyclePhase,
    HarnessError,
>)
    ensures
        next == match transition(phase, trigger) {
            Some(target) => Ok::<LifecyclePhase, HarnessError>(target),
            None => Err(HarnessError::InvalidTransition),
        },
{
    match (phase, trigger) {
        (LifecyclePhase::Loading, Trigger::ResourceLoaded) => Ok(LifecyclePhase::Running),
        (LifecyclePhase::Running, Trigger::WorkloadDrained) => Ok(LifecyclePhase::End),
        _ => Err(HarnessError::InvalidTransition),
    }
}

/// Every transition of the table leads to the phase that comes next in the
/// lifecycle: none goes back, none stays, none skips a phase.
pub proof fn lemma_transition_advances_by_one(phase: LifecyclePhase, trigger: Trigger)
    ensures
        transition(phase, trigger) matches Some(target) ==> target.rank() == phase.rank() + 1,
        phase == LifecyclePhase::End ==> transition(phase, trigger) is None,
{
}

} // verus!
