use vstd::prelude::*;
use crate::aggregate::mean;
use crate::aggregate::mean_of;
use crate::channel::TimingChannel;
use crate::channel::MAX_CAPACITY;
use crate::error::HarnessError;
use crate::phase::LifecyclePhase;
use crate::sample::TimingSample;
use crate::trial::lemma_step_follows_lifecycle;
use crate::trial::lemma_step_keeps_wf;
use crate::trial::Trial;
use crate::trial::TrialAction;
use crate::trial::TrialEvent;
use crate::trial::TrialView;
use crate::workload::per_unit;
use crate::workload::WorkloadVariant;

verus! {

/// The number of trials of a standard run.
pub const RUN_COUNT: usize = 10;

/// The number of requests that the units of a standard run share in a tick.
pub const ENTITY_COUNT: usize = 10_000;

/// The number of workload units of a standard run.
pub const SYSTEM_COUNT: usize = 5;

/// What a benchmark run is made with.
#[derive(Clone, Copy, Debug, PartialEq, Eq, Structural)]
pub struct BenchConfig {
    pub trial_count: usize,
    pub entity_count: usize,
    pub unit_count: usize,
    pub variant: WorkloadVariant,
    /// Whether the first trial runs with verbose diagnostics.
    pub diagnostics: bool,
}

impl BenchConfig {
    /// The configuration of a standard run of `variant`.
    pub fn standard(variant: WorkloadVariant, diagnostics: bool) -> (config: BenchConfig)
        ensures
            config == (BenchConfig {
                trial_count: RUN_COUNT,
                entity_count: ENTITY_COUNT,
                unit_count: SYSTEM_COUNT,
                variant,
                diagnostics,
            }),
    {
        BenchConfig {
            trial_count: RUN_COUNT,
            entity_count: ENTITY_COUNT,
            unit_count: SYSTEM_COUNT,
            variant,
            diagnostics,
        }
    }
}

/// What the engine needs to know to set up a trial's execution context.
#[derive(Clone, Copy, Debug, PartialEq, Eq, Structural)]
pub struct TrialSetup {
    pub index: usize,
    pub diagnostics: bool,
}

/// What a run that went through all of its trials reports.
pub struct Report {
    /// The samples of the trials, in the order of the trials.
    pub samples: Vec<TimingSample>,
    /// Their mean; `None` for a run of no trials, or where the sum of the
    /// samples is more than a sample can hold.
    pub mean: Option<TimingSample>,
}

/// Whether the trial number `index` runs with diagnostics, in a run that was
/// asked for them or not: only the first trial ever does.
pub open spec fn diagnostics_on(index: nat, requested: bool) -> bool {
    index == 0 && requested
}

/// Whether the trial number `index` runs with diagnostics.
pub fn diagnostics_active(index: usize, requested: bool) -> (active: bool)
    ensures
        active == diagnostics_on(index as nat, requested),
        index != 0 ==> !active,
{
    index == 0 && requested
}

/// The state of a run, as contracts see it.
pub struct RunnerView {
    pub config: BenchConfig,
    /// The trials that have gone through their whole lifecycle.
    pub completed: nat,
    /// The samples that wait on the timing channel, oldest first.
    pub recorded: Seq<TimingSample>,
    /// The trial that is under way.
    pub current: Option<TrialView>,
    /// The fatal condition that ended the run.
    pub failure: Option<HarnessError>,
}

impl RunnerView {
    /// A run before its first trial.
    pub open spec fn initial(config: BenchConfig) -> RunnerView {
        RunnerView {
            config,
            completed: 0,
            recorded: Seq::empty(),
            current: None,
            failure: None,
        }
    }

    /// What holds of a run at any time: the channel has a slot for every
    /// trial and holds exactly one sample for each completed trial, and a
    /// trial is under way only in a run that has not failed, under the
    /// run's configuration, with the number of the next trial, and before
    /// it has its duration.
    pub open spec fn wf(self) -> bool {
        &&& self.config.trial_count <= MAX_CAPACITY
        &&& self.completed <= self.config.trial_count
        &&& self.recorded.len() == self.completed
        &&& self.current matches Some(trial) ==> {
            &&& self.failure is None
            &&& trial.wf()
            &&& trial.index == self.completed
            &&& trial.index < self.config.trial_count
            &&& trial.entity_count == self.config.entity_count
            &&& trial.unit_count == self.config.unit_count
            &&& trial.variant == self.config.variant
            &&& trial.duration is None
        }
    }

    /// The run after the fatal condition `error`: it keeps its samples and
    /// has no trial under way any more.
    pub open spec fn fail(self, error: HarnessError) -> RunnerView {
        RunnerView { current: None, failure: Some(error), ..self }
    }

    /// The run after its trial under way has ended with `sample`.
    pub open spec fn complete(self, sample: TimingSample) -> RunnerView {
        RunnerView {
            completed: self.completed + 1,
            recorded: self.recorded.push(sample),
            current: None,
            ..self
        }
    }

    /// The run with its next trial set up, or why none can be set up: the
    /// run has failed, a trial is under way, or every trial is completed.
    pub open spec fn begin(self) -> Result<(RunnerView, TrialSetup), HarnessError> {
        if self.failure is Some {
            Err(self.failure.unwrap())
        } else if self.current is Some || self.completed >= self.config.trial_count {
            Err(HarnessError::InvalidTransition)
        } else {
            Ok(
                (
                    RunnerView {
                        current: Some(
                            TrialView::initial(
                                self.completed,
                                self.config.entity_count as nat,
                                self.config.unit_count as nat,
                                self.config.variant,
                            ),
                        ),
                        ..self
                    },
                    TrialSetup {
                        index: self.completed as usize,
                        diagnostics: diagnostics_on(self.completed, self.config.diagnostics),
                    },
                ),
            )
        }
    }

    /// The run after `event` went to its trial under way. The sample of a
    /// trial that ends goes to the timing channel, and the trial counts as
    /// completed.
    pub open spec fn advance(self, event: TrialEvent) -> Result<(RunnerView, TrialAction), HarnessError> {
        if self.failure is Some {
            Err(self.failure.unwrap())
        } else {
            match self.current {
                None => Err(HarnessError::InvalidTransition),
                Some(trial) => match trial.step(event) {
                    Err(error) => Err(error),
                    Ok((_, TrialAction::Terminate { sample })) => Ok(
                        (self.complete(sample), TrialAction::Terminate { sample }),
                    ),
                    Ok((next, action)) => Ok((RunnerView { current: Some(next), ..self }, action)),
                },
            }
        }
    }

    /// What the run reports at its end, or why it has nothing to report: it
    /// has failed, or not every trial is completed.
    pub open spec fn outcome(self) -> Result<(Seq<TimingSample>, Option<TimingSample>), HarnessError> {
        if self.failure is Some {
            Err(self.failure.unwrap())
        } else if self.current is Some || self.completed < self.config.trial_count {
            Err(HarnessError::InvalidTransition)
        } else {
            Ok((self.recorded, mean_of(self.recorded, self.config.trial_count as nat)))
        }
    }
}

/// A run before its first trial is well-formed.
pub proof fn lemma_initial_wf(config: BenchConfig)
    requires
        config.trial_count <= MAX_CAPACITY,
    ensures
        RunnerView::initial(config).wf(),
{
}

/// Setting up a trial keeps a well-formed run well-formed and leaves its
/// samples alone. The trial gets the number of the trials completed before
/// it, and diagnostics only if that number is zero and the run was asked
/// for them: no trial but the first ever runs with diagnostics.
pub proof fn lemma_begin_keeps_wf(run: RunnerView)
    requires
        run.wf(),
    ensures
        run.begin() matches Ok((next, setup)) ==> {
            &&& next.wf()
            &&& next.config == run.config
            &&& next.completed == run.completed
            &&& next.recorded == run.recorded
            &&& setup.index == run.completed
            &&& setup.diagnostics <==> setup.index == 0 && run.config.diagnostics
        },
{
    if run.begin() is Ok {
        let share = per_unit(
            run.config.entity_count as nat,
            run.config.unit_count as nat,
        ) as int;
        assert(0 * share == 0) by (nonlinear_arith);
    }
}

/// An event keeps a well-formed run well-formed. The run gains exactly one
/// sample, and counts exactly one more completed trial, when the event ends
/// the trial under way; any other event leaves samples and count as they
/// were.
pub proof fn lemma_advance_keeps_wf(run: RunnerView, event: TrialEvent)
    requires
        run.wf(),
    ensures
        run.advance(event) matches Ok((next, action)) ==> {
            &&& next.wf()
            &&& next.config == run.config
            &&& action matches TrialAction::Terminate { sample } ==> next.completed
                == run.completed + 1 && next.recorded == run.recorded.push(sample)
            &&& !(action is Terminate) ==> next.completed == run.completed && next.recorded
                == run.recorded
        },
{
    if run.advance(event) is Ok {
        let trial = run.current.unwrap();
        lemma_step_keeps_wf(trial, event);
        lemma_step_follows_lifecycle(trial, event);
    }
}

/// A fatal condition keeps a well-formed run well-formed and its samples as
/// they were, and it is final: the run sets up no further trial, takes no
/// further event, and reports nothing but the condition.
pub proof fn lemma_failure_is_final(run: RunnerView, error: HarnessError, event: TrialEvent)
    requires
        run.wf(),
    ensures
        run.fail(error).wf(),
        run.fail(error).completed == run.completed,
        run.fail(error).recorded == run.recorded,
        run.fail(error).begin() == Err::<(RunnerView, TrialSetup), HarnessError>(error),
        run.fail(error).advance(event) == Err::<(RunnerView, TrialAction), HarnessError>(error),
        run.fail(error).outcome() == Err::<(Seq<TimingSample>, Option<TimingSample>), HarnessError>(
            error,
        ),
{
}

/// Whether `next` is what one call makes of `run`: a trial set up, an event
/// taken, or a fatal condition met.
pub open spec fn moves_to(run: RunnerView, next: RunnerView) -> bool {
    ||| run.begin() is Ok && run.begin().unwrap().0 == next
    ||| exists|event: TrialEvent| #[trigger]
        run.advance(event) is Ok && run.advance(event).unwrap().0 == next
    ||| exists|error: HarnessError| next == #[trigger] run.fail(error)
}

/// Whether `states` are the states that a run goes through from its start.
pub open spec fn is_course(states: Seq<RunnerView>) -> bool {
    &&& states.len() > 0
    &&& states[0].config.trial_count <= MAX_CAPACITY
    &&& states[0] == RunnerView::initial(states[0].config)
    &&& forall|k: int| 0 <= k < states.len() - 1 ==> moves_to(#[trigger] states[k], states[k + 1])
}

/// At every point of a run the timing channel holds exactly one sample for
/// each completed trial, never more and never fewer, and no more trials are
/// completed than the run has: the channel, which has a slot for every
/// trial, never overflows.
pub proof fn lemma_one_sample_per_completed_trial(states: Seq<RunnerView>, at: int)
    requires
        is_course(states),
        0 <= at < states.len(),
    ensures
        states[at].wf(),
        states[at].config == states[0].config,
        states[at].recorded.len() == states[at].completed,
        states[at].completed <= states[at].config.trial_count,
    decreases at,
{
    if at == 0 {
        lemma_initial_wf(states[0].config);
    } else {
        lemma_one_sample_per_completed_trial(states, at - 1);
        let before = states[at - 1];
        let next = states[at];
        assert(moves_to(before, states[at - 1 + 1]));
        if before.begin() is Ok && before.begin().unwrap().0 == next {
            lemma_begin_keeps_wf(before);
        } else if exists|event: TrialEvent| #[trigger]
            before.advance(event) is Ok && before.advance(event).unwrap().0 == next {
            let event = choose|event: TrialEvent| #[trigger]
                before.advance(event) is Ok && before.advance(event).unwrap().0 == next;
            lemma_advance_keeps_wf(before, event);
        } else {
            let error = choose|error: HarnessError| next == #[trigger] before.fail(error);
            lemma_failure_is_final(before, error, TrialEvent::UnitScheduled);
        }
    }
}

/// A run that reports has gone through all of its trials, and reports one
/// sample for each of them.
pub proof fn lemma_report_has_every_sample(run: RunnerView)
    requires
        run.wf(),
    ensures
        run.outcome() matches Ok((samples, average)) ==> {
            &&& samples.len() == run.config.trial_count
            &&& run.completed == run.config.trial_count
            &&& average == mean_of(samples, run.config.trial_count as nat)
        },
{
}

/// A benchmark run: it sets up one trial after another, passes the engine's
/// events to the trial under way, collects the samples on its timing channel
/// and reports their mean.
pub struct Runner {
    config: BenchConfig,
    channel: TimingChannel,
    completed: usize,
    current: Option<Trial>,
    failure: Option<HarnessError>,
}

impl View for Runner {
    type V = RunnerView;

    closed spec fn view(&self) -> RunnerView {
        RunnerView {
            config: self.config,
            completed: self.completed as nat,
            recorded: self.channel@,
            current: match self.current {
                Some(trial) => Some(trial@),
                None => None,
            },
            failure: self.failure,
        }
    }
}

/// Sends `sample` on a channel that has room for it, and counts one more
/// completed trial.
fn record(channel: &mut TimingChannel, completed: &mut usize, sample: TimingSample) -> (verdict:
    Result<(), HarnessError>)
    requires
        old(channel)@.len() == *old(completed),
        *old(completed) < old(channel).capacity(),
        old(channel).capacity() <= MAX_CAPACITY,
    ensures
        verdict == Ok::<(), HarnessError>(()),
        final(channel).capacity() == old(channel).capacity(),
        final(channel)@ == old(channel)@.push(sample),
        *final(completed) == *old(completed) + 1,
    no_unwind
{
    match channel.send(sample) {
        Ok(()) => {
            *completed = *completed + 1;
            Ok(())
        },
        Err(error) => Err(error),
    }
}

impl Runner {
    /// Holds of every run that executable code can get hold of: what the
    /// view's `wf` says, and that the timing channel has one slot for each
    /// trial.
    #[verifier::type_invariant]
    pub closed spec fn well_formed(self) -> bool {
        &&& self@.wf()
        &&& self.channel.capacity() == self.config.trial_count
    }

    /// The view of a run that meets the type's invariant is well-formed.
    pub proof fn lemma_view_wf(self)
        requires
            self.well_formed(),
        ensures
            self@.wf(),
    {
    }

    /// A run of `config.trial_count` trials, with a timing channel that has a
    /// slot for each of them. More than `MAX_CAPACITY` trials are refused.
    pub fn new(config: BenchConfig) -> (made: Result<Runner, HarnessError>)
        ensures
            match made {
                Ok(runner) => config.trial_count <= MAX_CAPACITY && runner@ == RunnerView::initial(
                    config,
                ) && runner@.wf(),
                Err(error) => config.trial_count > MAX_CAPACITY && error
                    == HarnessError::TooManyTrials,
            },
    {
        match TimingChannel::with_capacity(config.trial_count) {
            Some(channel) => Ok(
                Runner { config, channel, completed: 0, current: None, failure: None },
            ),
            None => Err(HarnessError::TooManyTrials),
        }
    }

    pub fn config(&self) -> (config: BenchConfig)
        ensures
            config == self@.config,
    {
        self.config
    }

    /// The number of trials that have gone through their whole lifecycle.
    pub fn completed(&self) -> (completed: usize)
        ensures
            completed == self@.completed,
            self@.wf(),
    {
        proof {
            use_type_invariant(self);
        }
        self.completed
    }

    /// The phase of the trial under way.
    pub fn current_phase(&self) -> (phase: Option<LifecyclePhase>)
        ensures
            phase == match self@.current {
                Some(trial) => Some(trial.phase),
                None => None,
            },
    {
        match &self.current {
            Some(trial) => Some(trial.phase()),
            None => None,
        }
    }

    /// The fatal condition that ended the run.
    pub fn failure(&self) -> (failure: Option<HarnessError>)
        ensures
            failure == self@.failure,
    {
        self.failure
    }

    /// Sets up the next trial and says under which number it runs and
    /// whether with diagnostics. Asked for while a trial is under way, or
    /// after the last trial, this is fatal.
    pub fn begin_trial(&mut self) -> (outcome: Result<TrialSetup, HarnessError>)
        ensures
            old(self)@.wf(),
            final(self)@.wf(),
            match old(self)@.begin() {
                Ok((next, setup)) => outcome == Ok::<TrialSetup, HarnessError>(setup) && final(self)@
                    == next,
                Err(error) => outcome == Err::<TrialSetup, HarnessError>(error) && final(self)@
                    == old(self)@.fail(error),
            },
    {
        proof {
            use_type_invariant(&*self);
        }
        if let Some(error) = self.failure {
            return Err(error);
        }
        if self.current.is_some() || self.completed >= self.config.trial_count {
            self.current = None;
            self.failure = Some(HarnessError::InvalidTransition);
            return Err(HarnessError::InvalidTransition);
        }
        let index: usize = self.completed;
        let trial = Trial::new(
            index,
            self.config.entity_count,
            self.config.unit_count,
            self.config.variant,
        );
        self.current = Some(trial);
        Ok(TrialSetup { index, diagnostics: diagnostics_active(index, self.config.diagnostics) })
    }

    /// Passes `event` to the trial under way and returns what the engine is
    /// to do next. When the trial hands out its sample, the sample goes to
    /// the timing channel, which has a slot for it, the trial counts as
    /// completed and is no longer under way. Whatever is fatal to the trial
    /// is fatal to the run.
    pub fn step(&mut self, event: TrialEvent) -> (outcome: Result<TrialAction, HarnessError>)
        ensures
            old(self)@.wf(),
            final(self)@.wf(),
            match old(self)@.advance(event) {
                Ok((next, action)) => outcome == Ok::<TrialAction, HarnessError>(action)
                    && final(self)@ == next,
                Err(error) => outcome == Err::<TrialAction, HarnessError>(error) && final(self)@
                    == old(self)@.fail(error),
            },
    {
        proof {
            use_type_invariant(&*self);
        }
        if let Some(error) = self.failure {
            return Err(error);
        }
        let mut taken: Option<Trial> = None;
        core::mem::swap(&mut taken, &mut self.current);
        let mut trial = match taken {
            Some(trial) => trial,
            None => {
                self.failure = Some(HarnessError::InvalidTransition);
                return Err(HarnessError::InvalidTransition);
            },
        };
        let ghost before = trial@;
        let stepped = trial.step(event);
        proof {
            use_type_invariant(&trial);
            lemma_step_keeps_wf(before, event);
            lemma_step_follows_lifecycle(before, event);
        }
        match stepped {
            Err(error) => {
                self.failure = Some(error);
                Err(error)
            },
            Ok(TrialAction::Terminate { sample }) => {
                match record(&mut self.channel, &mut self.completed, sample) {
                    Ok(()) => Ok(TrialAction::Terminate { sample }),
                    Err(error) => {
                        self.failure = Some(error);
                        Err(error)
                    },
                }
            },
            Ok(action) => {
                self.current = Some(trial);
                Ok(action)
            },
        }
    }

    /// Ends the run: takes the samples off the timing channel and computes
    /// their mean over the number of trials. This is for a run whose trials
    /// are all completed; any other has nothing to report.
    pub fn finish(self) -> (outcome: Result<Report, HarnessError>)
        ensures
            self@.wf(),
            match self@.outcome() {
                Ok((samples, average)) => outcome matches Ok(report) && report.samples@ == samples
                    && report.mean == average && report.samples@.len()
                    == self@.config.trial_count,
                Err(error) => outcome matches Err(reported) && reported == error,
            },
    {
        proof {
            use_type_invariant(&self);
        }
        let Runner { config, channel, completed, current, failure } = self;
        if let Some(error) = failure {
            return Err(error);
        }
        if current.is_some() || completed < config.trial_count {
            return Err(HarnessError::InvalidTransition);
        }
        let mut channel = channel;
        let samples = channel.drain();
        let average = mean(&samples, config.trial_count);
        Ok(Report { samples, mean: average })
    }
}

} // verus!
