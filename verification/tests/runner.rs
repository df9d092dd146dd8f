use trial_harness::channel::MAX_CAPACITY;
use trial_harness::error::HarnessError;
use trial_harness::phase::LifecyclePhase;
use trial_harness::phase::LoadStatus;
use trial_harness::runner::diagnostics_active;
use trial_harness::runner::BenchConfig;
use trial_harness::runner::Runner;
use trial_harness::runner::TrialSetup;
use trial_harness::runner::ENTITY_COUNT;
use trial_harness::runner::RUN_COUNT;
use trial_harness::runner::SYSTEM_COUNT;
use trial_harness::sample::TimingSample;
use trial_harness::trial::TrialAction;
use trial_harness::trial::TrialEvent;
use trial_harness::workload::Acquisition;
use trial_harness::workload::SharedResourceHandle;
use trial_harness::workload::WorkloadVariant;

const HANDLE: SharedResourceHandle = SharedResourceHandle { id: 1 };

fn config(trials: usize, entities: usize, units: usize, diagnostics: bool) -> BenchConfig {
    BenchConfig {
        trial_count: trials,
        entity_count: entities,
        unit_count: units,
        variant: WorkloadVariant::SharedHandleReuse,
        diagnostics,
    }
}

fn run_trial(runner: &mut Runner, start: u128, running_for: u128) -> usize {
    let units = runner.config().unit_count;
    let mut issued = 0usize;
    assert_eq!(
        runner.step(TrialEvent::LoadRequested { handle: HANDLE }),
        Ok(TrialAction::AwaitLoad)
    );
    assert_eq!(
        runner.step(TrialEvent::StatusPolled { status: LoadStatus::Loading }),
        Ok(TrialAction::AwaitLoad)
    );
    assert_eq!(
        runner.step(TrialEvent::StatusPolled { status: LoadStatus::Loaded }),
        Ok(TrialAction::Enter { phase: LifecyclePhase::Running })
    );
    assert_eq!(
        runner.step(TrialEvent::RunningEntered { now: start }),
        Ok(TrialAction::StartWorkload)
    );
    assert_eq!(runner.current_phase(), Some(LifecyclePhase::Running));
    for _ in 0..units {
        match runner.step(TrialEvent::UnitScheduled) {
            Ok(TrialAction::IssueRequests { count, acquisition }) => {
                assert_eq!(acquisition, Acquisition::CloneShared { handle: HANDLE });
                issued += count;
            }
            other => panic!("unit did not issue requests: {:?}", other),
        }
    }
    assert_eq!(
        runner.step(TrialEvent::TerminationCheck),
        Ok(TrialAction::Enter { phase: LifecyclePhase::End })
    );
    assert_eq!(runner.current_phase(), Some(LifecyclePhase::End));
    assert_eq!(
        runner.step(TrialEvent::EndEntered { now: start + running_for }),
        Ok(TrialAction::Terminate { sample: TimingSample::from_nanos(running_for) })
    );
    assert_eq!(runner.current_phase(), None);
    issued
}

#[test]
fn standard_run_has_the_standard_counts() {
    assert_eq!(RUN_COUNT, 10);
    assert_eq!(ENTITY_COUNT, 10_000);
    assert_eq!(SYSTEM_COUNT, 5);
    let config = BenchConfig::standard(WorkloadVariant::PerUnitRequest, true);
    assert_eq!(config.trial_count, 10);
    assert_eq!(config.entity_count, 10_000);
    assert_eq!(config.unit_count, 5);
    assert_eq!(config.variant, WorkloadVariant::PerUnitRequest);
    assert!(config.diagnostics);
}

#[test]
fn three_trials_report_the_mean_of_their_samples() {
    let mut runner = Runner::new(config(3, 10_000, 5, false)).unwrap();
    let mut now = 1_000u128;
    for running_for in [100_000_000u128, 200_000_000, 300_000_000] {
        assert!(runner.begin_trial().is_ok());
        run_trial(&mut runner, now, running_for);
        now += running_for + 17;
    }
    let report = runner.finish().unwrap();
    assert_eq!(
        report.samples,
        vec![
            TimingSample::from_nanos(100_000_000),
            TimingSample::from_nanos(200_000_000),
            TimingSample::from_nanos(300_000_000),
        ]
    );
    assert_eq!(report.mean, Some(TimingSample::from_nanos(200_000_000)));
}

#[test]
fn every_completed_trial_leaves_exactly_one_sample() {
    let mut runner = Runner::new(config(10, 100, 5, false)).unwrap();
    for done in 0..10usize {
        assert_eq!(runner.completed(), done);
        assert!(runner.begin_trial().is_ok());
        assert_eq!(runner.completed(), done);
        run_trial(&mut runner, 0, 5);
        assert_eq!(runner.completed(), done + 1);
    }
    let report = runner.finish().unwrap();
    assert_eq!(report.samples.len(), 10);
    assert_eq!(report.mean, Some(TimingSample::from_nanos(5)));
}

#[test]
fn standard_trial_issues_ten_thousand_requests() {
    let mut runner =
        Runner::new(BenchConfig::standard(WorkloadVariant::SharedHandleReuse, false)).unwrap();
    assert!(runner.begin_trial().is_ok());
    assert_eq!(run_trial(&mut runner, 0, 1), 10_000);
}

#[test]
fn trial_of_ten_thousand_and_one_entities_issues_ten_thousand_requests() {
    let mut runner = Runner::new(config(1, 10_001, 5, false)).unwrap();
    assert!(runner.begin_trial().is_ok());
    assert_eq!(run_trial(&mut runner, 0, 1), 10_000);
}

#[test]
fn diagnostics_run_on_the_first_trial_only() {
    let mut runner = Runner::new(config(4, 10, 2, true)).unwrap();
    let mut setups = Vec::new();
    for _ in 0..4 {
        setups.push(runner.begin_trial().unwrap());
        run_trial(&mut runner, 0, 1);
    }
    assert_eq!(
        setups,
        vec![
            TrialSetup { index: 0, diagnostics: true },
            TrialSetup { index: 1, diagnostics: false },
            TrialSetup { index: 2, diagnostics: false },
            TrialSetup { index: 3, diagnostics: false },
        ]
    );
}

#[test]
fn diagnostics_never_run_when_not_asked_for() {
    let mut runner = Runner::new(config(3, 10, 2, false)).unwrap();
    for index in 0..3usize {
        assert_eq!(runner.begin_trial(), Ok(TrialSetup { index, diagnostics: false }));
        run_trial(&mut runner, 0, 1);
    }
}

#[test]
fn diagnostics_are_active_for_index_zero_alone() {
    assert!(diagnostics_active(0, true));
    assert!(!diagnostics_active(0, false));
    assert!(!diagnostics_active(1, true));
    assert!(!diagnostics_active(9, true));
    assert!(!diagnostics_active(usize::MAX, true));
    assert!(!diagnostics_active(1, false));
}

#[test]
fn failed_load_aborts_the_run() {
    let mut runner = Runner::new(config(3, 10, 2, false)).unwrap();
    assert!(runner.begin_trial().is_ok());
    run_trial(&mut runner, 0, 40);
    assert!(runner.begin_trial().is_ok());
    assert!(runner.step(TrialEvent::LoadRequested { handle: HANDLE }).is_ok());
    assert_eq!(
        runner.step(TrialEvent::StatusPolled { status: LoadStatus::Failed }),
        Err(HarnessError::LoadFailed)
    );
    assert_eq!(runner.failure(), Some(HarnessError::LoadFailed));
    assert_eq!(runner.completed(), 1);
    assert_eq!(runner.current_phase(), None);
    assert_eq!(runner.begin_trial(), Err(HarnessError::LoadFailed));
    assert_eq!(runner.step(TrialEvent::UnitScheduled), Err(HarnessError::LoadFailed));
    assert_eq!(runner.completed(), 1);
    assert!(matches!(runner.finish(), Err(HarnessError::LoadFailed)));
}

#[test]
fn failed_load_in_the_first_trial_leaves_no_sample() {
    let mut runner = Runner::new(config(2, 10, 2, false)).unwrap();
    assert!(runner.begin_trial().is_ok());
    assert!(runner.step(TrialEvent::LoadRequested { handle: HANDLE }).is_ok());
    assert_eq!(
        runner.step(TrialEvent::StatusPolled { status: LoadStatus::Failed }),
        Err(HarnessError::LoadFailed)
    );
    assert_eq!(runner.completed(), 0);
    assert_eq!(runner.begin_trial(), Err(HarnessError::LoadFailed));
    assert!(matches!(runner.finish(), Err(HarnessError::LoadFailed)));
}

#[test]
fn second_trial_cannot_begin_while_the_first_is_under_way() {
    let mut runner = Runner::new(config(2, 10, 2, false)).unwrap();
    assert!(runner.begin_trial().is_ok());
    assert_eq!(runner.begin_trial(), Err(HarnessError::InvalidTransition));
    assert_eq!(runner.failure(), Some(HarnessError::InvalidTransition));
    assert_eq!(
        runner.step(TrialEvent::LoadRequested { handle: HANDLE }),
        Err(HarnessError::InvalidTransition)
    );
}

#[test]
fn no_trial_begins_after_the_last() {
    let mut runner = Runner::new(config(1, 10, 2, false)).unwrap();
    assert!(runner.begin_trial().is_ok());
    run_trial(&mut runner, 0, 1);
    assert_eq!(runner.begin_trial(), Err(HarnessError::InvalidTransition));
    assert_eq!(runner.completed(), 1);
}

#[test]
fn event_without_a_trial_is_fatal() {
    let mut runner = Runner::new(config(1, 10, 2, false)).unwrap();
    assert_eq!(runner.step(TrialEvent::UnitScheduled), Err(HarnessError::InvalidTransition));
    assert_eq!(runner.begin_trial(), Err(HarnessError::InvalidTransition));
}

#[test]
fn event_out_of_order_aborts_the_run() {
    let mut runner = Runner::new(config(2, 10, 2, false)).unwrap();
    assert!(runner.begin_trial().is_ok());
    assert!(runner.step(TrialEvent::LoadRequested { handle: HANDLE }).is_ok());
    assert_eq!(
        runner.step(TrialEvent::TerminationCheck),
        Err(HarnessError::InvalidTransition)
    );
    assert_eq!(runner.current_phase(), None);
    assert_eq!(runner.begin_trial(), Err(HarnessError::InvalidTransition));
    assert!(matches!(runner.finish(), Err(HarnessError::InvalidTransition)));
}

#[test]
fn run_reports_nothing_before_every_trial_is_completed() {
    let mut runner = Runner::new(config(2, 10, 2, false)).unwrap();
    assert!(runner.begin_trial().is_ok());
    run_trial(&mut runner, 0, 1);
    assert!(matches!(runner.finish(), Err(HarnessError::InvalidTransition)));
}

#[test]
fn run_reports_nothing_while_a_trial_is_under_way() {
    let mut runner = Runner::new(config(1, 10, 2, false)).unwrap();
    assert!(runner.begin_trial().is_ok());
    assert!(matches!(runner.finish(), Err(HarnessError::InvalidTransition)));
}

#[test]
fn run_of_no_trials_reports_no_mean() {
    let runner = Runner::new(config(0, 10, 2, false)).unwrap();
    let report = runner.finish().unwrap();
    assert_eq!(report.samples, Vec::new());
    assert_eq!(report.mean, None);
}

#[test]
fn too_many_trials_are_refused() {
    assert!(matches!(
        Runner::new(config(MAX_CAPACITY + 1, 10, 2, false)),
        Err(HarnessError::TooManyTrials)
    ));
    assert!(Runner::new(config(MAX_CAPACITY, 10, 2, false)).is_ok());
}

#[test]
fn new_run_has_completed_nothing() {
    let runner = Runner::new(config(5, 10, 2, true)).unwrap();
    assert_eq!(runner.completed(), 0);
    assert_eq!(runner.current_phase(), None);
    assert_eq!(runner.failure(), None);
    assert_eq!(runner.config(), config(5, 10, 2, true));
}

#[test]
fn sample_is_recorded_when_the_entry_into_end_is_reported() {
    let mut runner = Runner::new(config(1, 10, 1, false)).unwrap();
    assert!(runner.begin_trial().is_ok());
    assert!(runner.step(TrialEvent::LoadRequested { handle: HANDLE }).is_ok());
    assert!(runner.step(TrialEvent::StatusPolled { status: LoadStatus::Loaded }).is_ok());
    assert!(runner.step(TrialEvent::RunningEntered { now: 5 }).is_ok());
    assert!(runner.step(TrialEvent::UnitScheduled).is_ok());
    assert!(runner.step(TrialEvent::TerminationCheck).is_ok());
    assert_eq!(runner.completed(), 0);
    assert_eq!(
        runner.step(TrialEvent::EndEntered { now: 9 }),
        Ok(TrialAction::Terminate { sample: TimingSample::from_nanos(4) })
    );
    assert_eq!(runner.completed(), 1);
    assert_eq!(runner.failure(), None);
    let report = runner.finish().unwrap();
    assert_eq!(report.samples, vec![TimingSample::from_nanos(4)]);
}
