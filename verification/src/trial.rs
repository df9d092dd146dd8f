use vstd::prelude::*;
use crate::error::HarnessError;
use crate::phase::next_phase;
use crate::phase::transition;
use crate::phase::LifecyclePhase;
use crate::phase::LoadStatus;
use crate::phase::Trigger;
use crate::sample::elapsed_nanos;
use crate::sample::TimingSample;
use crate::workload::acquisition_for;
use crate::workload::acquisition_of;
use crate::workload::issued_in_all;
use crate::workload::lemma_partial_issue_bound;
use crate::workload::per_unit;
use crate::workload::requests_per_unit;
use crate::workload::schedule_of;
use crate::workload::TickSystem;
use crate::workload::Acquisition;
use crate::workload::SharedResourceHandle;
use crate::workload::WorkloadVariant;

verus! {

/// What the host engine tells a trial.
#[derive(Clone, Copy, Debug, PartialEq, Eq, Structural)]
pub enum TrialEvent {
    /// The load of the shared resource was requested on entering `Loading`,
    /// and the loader returned `handle`.
    LoadRequested { handle: SharedResourceHandle },
    /// A tick of `Loading` polled the loader.
    StatusPolled { status: LoadStatus },
    /// The engine has entered `Running`, at the instant `now`.
    RunningEntered { now: u128 },
    /// The tick of `Running` is about to execute its next workload unit.
    UnitScheduled,
    /// The tick of `Running` runs its termination check.
    TerminationCheck,
    /// The engine has entered `End`, at the instant `now`.
    EndEntered { now: u128 },
}

/// What the host engine is to do next for a trial.
#[derive(Clone, Copy, Debug, PartialEq, Eq, Structural)]
pub enum TrialAction {
    /// Stay in `Loading` and poll again on the next tick.
    AwaitLoad,
    /// Enter `phase`, and report the entry.
    Enter { phase: LifecyclePhase },
    /// Run the tick's workload units, then the termination check.
    StartWorkload,
    /// Let the scheduled unit issue `count` requests, each as `acquisition`
    /// says.
    IssueRequests { count: usize, acquisition: Acquisition },
    /// The trial is over and `sample` is its duration: stop the execution
    /// context after this tick.
    Terminate { sample: TimingSample },
}

/// The state of one trial, as contracts see it.
pub struct TrialView {
    pub index: nat,
    pub entity_count: nat,
    pub unit_count: nat,
    pub variant: WorkloadVariant,
    pub phase: LifecyclePhase,
    /// The shared handle, once the load was requested.
    pub handle: Option<SharedResourceHandle>,
    /// The instant at which `Running` was entered.
    pub started_at: Option<u128>,
    /// The workload units that have run in the tick of `Running`.
    pub units_run: nat,
    /// The requests that those units have issued.
    pub requests_issued: nat,
    /// How long `Running` took, once `End` was entered.
    pub duration: Option<TimingSample>,
}

impl TrialView {
    /// A trial before its first event.
    pub open spec fn initial(
        index: nat,
        entity_count: nat,
        unit_count: nat,
        variant: WorkloadVariant,
    ) -> TrialView {
        TrialView {
            index,
            entity_count,
            unit_count,
            variant,
            phase: LifecyclePhase::Loading,
            handle: None,
            started_at: None,
            units_run: 0,
            requests_issued: 0,
            duration: None,
        }
    }

    /// The requests that one unit of this trial issues.
    pub open spec fn share(self) -> nat {
        per_unit(self.entity_count, self.unit_count)
    }

    /// What holds of a trial at any time: its counts fit the machine, its
    /// units have each issued their share, it has left `Loading` only with a
    /// handle, no unit has run before the start instant was taken, and it
    /// has a duration only after it has ended, which it does only after all
    /// of its units ran.
    pub open spec fn wf(self) -> bool {
        &&& self.index <= usize::MAX
        &&& self.entity_count <= usize::MAX
        &&& self.unit_count <= usize::MAX
        &&& self.units_run <= self.unit_count
        &&& self.requests_issued == self.units_run * self.share()
        &&& match self.phase {
            LifecyclePhase::Loading => self.started_at is None && self.duration is None
                && self.units_run == 0,
            LifecyclePhase::Running => self.handle is Some && self.duration is None && (
            self.started_at is None ==> self.units_run == 0),
            LifecyclePhase::End => self.handle is Some && self.started_at is Some
                && self.units_run == self.unit_count,
        }
    }

    /// The trial after `events`, taken in their order, or the first fatal
    /// condition that one of them meets.
    pub open spec fn feed(self, events: Seq<TrialEvent>) -> Result<TrialView, HarnessError>
        decreases events.len(),
    {
        if events.len() == 0 {
            Ok(self)
        } else {
            match self.step(events[0]) {
                Ok((next, _)) => next.feed(events.drop_first()),
                Err(error) => Err(error),
            }
        }
    }

    /// The trial after `event`, with what the engine is to do next, or the
    /// fatal condition that `event` meets. Where the condition is fatal the
    /// trial does not change.
    pub open spec fn step(self, event: TrialEvent) -> Result<(TrialView, TrialAction), HarnessError> {
        match (self.phase, event) {
            (LifecyclePhase::Loading, TrialEvent::LoadRequested { handle }) => {
                if self.handle is None {
                    Ok((TrialView { handle: Some(handle), ..self }, TrialAction::AwaitLoad))
                } else {
                    Err(HarnessError::InvalidTransition)
                }
            },
            (LifecyclePhase::Loading, TrialEvent::StatusPolled { status }) => {
                if self.handle is None {
                    Err(HarnessError::InvalidTransition)
                } else {
                    match status {
                        LoadStatus::Loaded => Ok(
                            (
                                TrialView { phase: LifecyclePhase::Running, ..self },
                                TrialAction::Enter { phase: LifecyclePhase::Running },
                            ),
                        ),
                        LoadStatus::Failed => Err(HarnessError::LoadFailed),
                        _ => Ok((self, TrialAction::AwaitLoad)),
                    }
                }
            },
            (LifecyclePhase::Running, TrialEvent::RunningEntered { now }) => {
                if self.started_at is None {
                    Ok((TrialView { started_at: Some(now), ..self }, TrialAction::StartWorkload))
                } else {
                    Err(HarnessError::InvalidTransition)
                }
            },
            (LifecyclePhase::Running, TrialEvent::UnitScheduled) => {
                if self.started_at is Some && self.units_run < self.unit_count {
                    Ok(
                        (
                            TrialView {
                                units_run: self.units_run + 1,
                                requests_issued: self.requests_issued + self.share(),
                                ..self
                            },
                            TrialAction::IssueRequests {
                                count: self.share() as usize,
                                acquisition: acquisition_of(self.variant, self.handle.unwrap()),
                            },
                        ),
                    )
                } else {
                    Err(HarnessError::InvalidTransition)
                }
            },
            (LifecyclePhase::Running, TrialEvent::TerminationCheck) => {
                if self.started_at is Some && self.units_run == self.unit_count {
                    Ok(
                        (
                            TrialView { phase: LifecyclePhase::End, ..self },
                            TrialAction::Enter { phase: LifecyclePhase::End },
                        ),
                    )
                } else {
                    Err(HarnessError::InvalidTransition)
                }
            },
            (LifecyclePhase::End, TrialEvent::EndEntered { now }) => {
                if self.duration is None {
                    let sample = TimingSample {
                        nanos: elapsed_nanos(self.started_at.unwrap(), now),
                    };
                    Ok(
                        (
                            TrialView { duration: Some(sample), ..self },
                            TrialAction::Terminate { sample },
                        ),
                    )
                } else {
                    Err(HarnessError::InvalidTransition)
                }
            },
            _ => Err(HarnessError::InvalidTransition),
        }
    }
}

/// A step changes nothing that the trial was made with, and it keeps a
/// well-formed trial well-formed.
pub proof fn lemma_step_keeps_wf(trial: TrialView, event: TrialEvent)
    requires
        trial.wf(),
    ensures
        trial.step(event) matches Ok((next, _)) ==> {
            &&& next.wf()
            &&& next.index == trial.index
            &&& next.entity_count == trial.entity_count
            &&& next.unit_count == trial.unit_count
            &&& next.variant == trial.variant
        },
{
    if trial.step(event) is Ok {
        let share = trial.share() as int;
        let units = trial.units_run as int;
        assert((units + 1) * share == units * share + share) by (nonlinear_arith);
    }
}

/// A step changes the phase only as the transition table allows, so to the
/// next phase of the lifecycle or not at all. `Running` is entered only on
/// the report that the resource is loaded, and `End` only by a termination
/// check that finds that every unit has run in the tick. The duration is set
/// once, by the step that reports the entry into `End`; that step, and no
/// other, hands out the trial's one sample, and no step follows it.
pub proof fn lemma_step_follows_lifecycle(trial: TrialView, event: TrialEvent)
    requires
        trial.wf(),
    ensures
        trial.step(event) matches Ok((next, action)) ==> {
            &&& next.phase == trial.phase || next.phase.rank() == trial.phase.rank() + 1
            &&& next.phase != trial.phase ==> exists|trigger: Trigger|
                transition(trial.phase, trigger) == Some(next.phase)
            &&& next.phase != trial.phase ==> action == (TrialAction::Enter { phase: next.phase })
            &&& next.phase == LifecyclePhase::Running && trial.phase != LifecyclePhase::Running
                ==> next.handle is Some && event == (TrialEvent::StatusPolled {
                status: LoadStatus::Loaded,
            })
            &&& next.phase == LifecyclePhase::End ==> {
                &&& trial.phase == LifecyclePhase::Running ==> event == TrialEvent::TerminationCheck
                &&& next.units_run == trial.unit_count
                &&& next.requests_issued == issued_in_all(trial.entity_count, trial.unit_count)
            }
            &&& action is Terminate <==> event is EndEntered
            &&& action matches TrialAction::Terminate { sample } ==> trial.duration is None
                && next.duration == Some(sample)
            &&& !(action is Terminate) ==> next.duration == trial.duration
        },
        trial.duration is Some ==> trial.step(event) is Err,
{
    match trial.step(event) {
        Ok((next, _)) => {
            if next.phase != trial.phase {
                if trial.phase == LifecyclePhase::Loading {
                    assert(transition(trial.phase, Trigger::ResourceLoaded) == Some(next.phase));
                } else {
                    assert(transition(trial.phase, Trigger::WorkloadDrained) == Some(next.phase));
                }
            }
        },
        Err(_) => {},
    }
}

/// Whether some event takes `trial` to `next` in one step.
pub open spec fn steps_to(trial: TrialView, next: TrialView) -> bool {
    exists|event: TrialEvent| #[trigger] trial.step(event) is Ok && trial.step(event).unwrap().0 == next
}

/// Whether `states` are the states that a trial goes through, one step from
/// each to the next.
pub open spec fn is_history(states: Seq<TrialView>) -> bool {
    &&& states.len() > 0
    &&& states[0].wf()
    &&& forall|k: int| 0 <= k < states.len() - 1 ==> steps_to(#[trigger] states[k], states[k + 1])
}

/// Every state of a trial's history is well-formed.
pub proof fn lemma_history_wf(states: Seq<TrialView>, at: int)
    requires
        is_history(states),
        0 <= at < states.len(),
    ensures
        states[at].wf(),
    decreases at,
{
    if at > 0 {
        lemma_history_wf(states, at - 1);
        let before = states[at - 1];
        assert(steps_to(before, states[at - 1 + 1]));
        let event = choose|event: TrialEvent| #[trigger]
            before.step(event) is Ok && before.step(event).unwrap().0 == states[at];
        lemma_step_keeps_wf(before, event);
    }
}

/// The phases of a trial come in the order of the lifecycle: a later state
/// of its history is never in an earlier phase, and between two states the
/// trial has advanced by no more phases than it took steps. So a trial that
/// starts in `Loading` goes through `Loading`, `Running` and `End` in that
/// order, comes back to none of them and skips none.
pub proof fn lemma_history_keeps_order(states: Seq<TrialView>, earlier: int, later: int)
    requires
        is_history(states),
        0 <= earlier <= later < states.len(),
    ensures
        states[earlier].phase.rank() <= states[later].phase.rank(),
        states[later].phase.rank() <= states[earlier].phase.rank() + (later - earlier),
    decreases later - earlier,
{
    if earlier < later {
        lemma_history_keeps_order(states, earlier, later - 1);
        lemma_history_wf(states, later - 1);
        let before = states[later - 1];
        assert(steps_to(before, states[later - 1 + 1]));
        let event = choose|event: TrialEvent| #[trigger]
            before.step(event) is Ok && before.step(event).unwrap().0 == states[later];
        lemma_step_follows_lifecycle(before, event);
    }
}

/// The events that the systems of `schedule` raise when they run in the
/// order of the schedule.
pub open spec fn tick_events(schedule: Seq<TickSystem>) -> Seq<TrialEvent> {
    Seq::new(
        schedule.len(),
        |i: int|
            match schedule[i] {
                TickSystem::WorkloadUnit { .. } => TrialEvent::UnitScheduled,
                TickSystem::TerminationCheck => TrialEvent::TerminationCheck,
            },
    )
}

/// A trial in `Running` that has `remaining` units left to run takes their
/// events and then the termination check, and is in `End`.
proof fn lemma_rest_of_tick_ends_trial(trial: TrialView, remaining: nat)
    requires
        trial.wf(),
        trial.phase == LifecyclePhase::Running,
        trial.started_at is Some,
        trial.units_run + remaining == trial.unit_count,
    ensures
        trial.feed(
            Seq::new(remaining, |i: int| TrialEvent::UnitScheduled).push(
                TrialEvent::TerminationCheck,
            ),
        ) == Ok::<TrialView, HarnessError>(
            TrialView {
                phase: LifecyclePhase::End,
                units_run: trial.unit_count,
                requests_issued: issued_in_all(trial.entity_count, trial.unit_count),
                ..trial
            },
        ),
    decreases remaining,
{
    let events = Seq::new(remaining, |i: int| TrialEvent::UnitScheduled).push(
        TrialEvent::TerminationCheck,
    );
    if remaining == 0 {
        assert(events.drop_first() =~= Seq::<TrialEvent>::empty());
        let ended = trial.step(events[0]).unwrap().0;
        assert(ended.feed(events.drop_first()) == Ok::<TrialView, HarnessError>(ended));
    } else {
        let next = trial.step(TrialEvent::UnitScheduled).unwrap().0;
        lemma_step_keeps_wf(trial, TrialEvent::UnitScheduled);
        lemma_rest_of_tick_ends_trial(next, (remaining - 1) as nat);
        assert(events.drop_first() =~= Seq::new(
            (remaining - 1) as nat,
            |i: int| TrialEvent::UnitScheduled,
        ).push(TrialEvent::TerminationCheck));
    }
}

/// One tick that follows the schedule ends the trial. A trial that has
/// entered `Running` and run no unit yet takes the events of its tick's
/// schedule, every workload unit first and the termination check after
/// them, and is then in `End`: each unit has issued its share, all of them
/// together as many requests as the division leaves of the entities. The
/// entry into `End` at the instant `now` then gives the trial's sample, the
/// time from the entry into `Running` to `now`.
pub proof fn lemma_tick_ends_trial(trial: TrialView, now: u128)
    requires
        trial.wf(),
        trial.phase == LifecyclePhase::Running,
        trial.started_at is Some,
        trial.units_run == 0,
    ensures
        trial.feed(tick_events(schedule_of(trial.entity_count, trial.unit_count))) matches Ok(
            ended,
        ) && ended == (TrialView {
            phase: LifecyclePhase::End,
            units_run: trial.unit_count,
            requests_issued: issued_in_all(trial.entity_count, trial.unit_count),
            ..trial
        }) && ended.step(TrialEvent::EndEntered { now }) == Ok::<
            (TrialView, TrialAction),
            HarnessError,
        >(
            (
                TrialView {
                    duration: Some(
                        TimingSample { nanos: elapsed_nanos(trial.started_at.unwrap(), now) },
                    ),
                    ..ended
                },
                TrialAction::Terminate {
                    sample: TimingSample { nanos: elapsed_nanos(trial.started_at.unwrap(), now) },
                },
            ),
        ),
{
    lemma_rest_of_tick_ends_trial(trial, trial.unit_count);
    assert(tick_events(schedule_of(trial.entity_count, trial.unit_count)) =~= Seq::new(
        trial.unit_count,
        |i: int| TrialEvent::UnitScheduled,
    ).push(TrialEvent::TerminationCheck));
}

/// One run of the lifecycle, from `Loading` to `End`.
pub struct Trial {
    index: usize,
    entity_count: usize,
    unit_count: usize,
    variant: WorkloadVariant,
    phase: LifecyclePhase,
    handle: Option<SharedResourceHandle>,
    started_at: Option<u128>,
    units_run: usize,
    requests_issued: usize,
    duration: Option<TimingSample>,
}

impl View for Trial {
    type V = TrialView;

    closed spec fn view(&self) -> TrialView {
        TrialView {
            index: self.index as nat,
            entity_count: self.entity_count as nat,
            unit_count: self.unit_count as nat,
            variant: self.variant,
            phase: self.phase,
            handle: self.handle,
            started_at: self.started_at,
            units_run: self.units_run as nat,
            requests_issued: self.requests_issued as nat,
            duration: self.duration,
        }
    }
}

impl Trial {
    /// Holds of every trial that executable code can get hold of.
    #[verifier::type_invariant]
    pub open spec fn well_formed(self) -> bool {
        self@.wf()
    }

    /// The trial number `index` of a run, in `Loading`, with no handle yet.
    pub fn new(index: usize, entity_count: usize, unit_count: usize, variant: WorkloadVariant) -> (trial:
        Trial)
        ensures
            trial@ == TrialView::initial(
                index as nat,
                entity_count as nat,
                unit_count as nat,
                variant,
            ),
    {
        proof {
            assert(0 * per_unit(entity_count as nat, unit_count as nat) == 0) by (nonlinear_arith);
        }
        Trial {
            index,
            entity_count,
            unit_count,
            variant,
            phase: LifecyclePhase::Loading,
            handle: None,
            started_at: None,
            units_run: 0,
            requests_issued: 0,
            duration: None,
        }
    }

    pub fn index(&self) -> (index: usize)
        ensures
            index == self@.index,
    {
        self.index
    }

    pub fn phase(&self) -> (phase: LifecyclePhase)
        ensures
            phase == self@.phase,
    {
        self.phase
    }

    pub fn handle(&self) -> (handle: Option<SharedResourceHandle>)
        ensures
            handle == self@.handle,
    {
        self.handle
    }

    pub fn units_run(&self) -> (units: usize)
        ensures
            units == self@.units_run,
    {
        self.units_run
    }

    pub fn requests_issued(&self) -> (requests: usize)
        ensures
            requests == self@.requests_issued,
    {
        self.requests_issued
    }

    pub fn duration(&self) -> (duration: Option<TimingSample>)
        ensures
            duration == self@.duration,
    {
        self.duration
    }

    /// Takes one event: changes the trial as `TrialView::step` says and
    /// returns what the engine is to do next. An event that the trial's state
    /// does not allow, and a failed load, are fatal and leave the trial as it
    /// was.
    pub fn step(&mut self, event: TrialEvent) -> (outcome: Result<TrialAction, HarnessError>)
        ensures
            match old(self)@.step(event) {
                Ok((next, action)) => outcome == Ok::<TrialAction, HarnessError>(action)
                    && final(self)@ == next,
                Err(error) => outcome == Err::<TrialAction, HarnessError>(error) && final(self)@
                    == old(self)@,
            },
    {
        proof {
            use_type_invariant(&*self);
        }
        match event {
            TrialEvent::LoadRequested { handle } => {
                match (self.phase, self.handle) {
                    (LifecyclePhase::Loading, None) => {
                        self.handle = Some(handle);
                        Ok(TrialAction::AwaitLoad)
                    },
                    _ => Err(HarnessError::InvalidTransition),
                }
            },
            TrialEvent::StatusPolled { status } => {
                match (self.phase, self.handle) {
                    (LifecyclePhase::Loading, Some(_)) => match status {
                        LoadStatus::Loaded => {
                            let entered = next_phase(self.phase, Trigger::ResourceLoaded)?;
                            self.phase = entered;
                            Ok(TrialAction::Enter { phase: entered })
                        },
                        LoadStatus::Failed => Err(HarnessError::LoadFailed),
                        _ => Ok(TrialAction::AwaitLoad),
                    },
                    _ => Err(HarnessError::InvalidTransition),
                }
            },
            TrialEvent::RunningEntered { now } => {
                match (self.phase, self.started_at) {
                    (LifecyclePhase::Running, None) => {
                        self.started_at = Some(now);
                        Ok(TrialAction::StartWorkload)
                    },
                    _ => Err(HarnessError::InvalidTransition),
                }
            },
            TrialEvent::UnitScheduled => {
                match (self.phase, self.handle, self.started_at) {
                    (LifecyclePhase::Running, Some(handle), Some(_)) => {
                        if self.units_run < self.unit_count {
                            let share: usize = requests_per_unit(
                                self.entity_count,
                                self.unit_count,
                            );
                            proof {
                                let units = self.units_run as nat;
                                lemma_partial_issue_bound(
                                    self.entity_count as nat,
                                    self.unit_count as nat,
                                    units + 1,
                                );
                                assert((units + 1) * share == units * share + share)
                                    by (nonlinear_arith);
                            }
                            *self = Trial {
                                units_run: self.units_run + 1,
                                requests_issued: self.requests_issued + share,
                                ..*self
                            };
                            Ok(
                                TrialAction::IssueRequests {
                                    count: share,
                                    acquisition: acquisition_for(self.variant, handle),
                                },
                            )
                        } else {
                            Err(HarnessError::InvalidTransition)
                        }
                    },
                    _ => Err(HarnessError::InvalidTransition),
                }
            },
            TrialEvent::TerminationCheck => {
                match (self.phase, self.started_at) {
                    (LifecyclePhase::Running, Some(_)) => {
                        if self.units_run == self.unit_count {
                            let entered = next_phase(self.phase, Trigger::WorkloadDrained)?;
                            self.phase = entered;
                            Ok(TrialAction::Enter { phase: entered })
                        } else {
                            Err(HarnessError::InvalidTransition)
                        }
                    },
                    _ => Err(HarnessError::InvalidTransition),
                }
            },
            TrialEvent::EndEntered { now } => {
                match (self.phase, self.started_at, self.duration) {
                    (LifecyclePhase::End, Some(start), None) => {
                        let sample = TimingSample::between(start, now);
                        self.duration = Some(sample);
                        Ok(TrialAction::Terminate { sample })
                    },
                    _ => Err(HarnessError::InvalidTransition),
                }
            },
        }
    }
}

} // verus!
