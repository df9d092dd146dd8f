use trial_harness::workload::acquisition_for;
use trial_harness::workload::requests_per_unit;
use trial_harness::workload::tick_schedule;
use trial_harness::workload::total_requests;
use trial_harness::workload::Acquisition;
use trial_harness::workload::SharedResourceHandle;
use trial_harness::workload::TickSystem;
use trial_harness::workload::WorkloadVariant;

#[test]
fn ten_thousand_entities_over_five_units() {
    assert_eq!(requests_per_unit(10_000, 5), 2000);
    assert_eq!(total_requests(10_000, 5), 10_000);
}

#[test]
fn remainder_of_the_division_is_dropped() {
    assert_eq!(requests_per_unit(10_001, 5), 2000);
    assert_eq!(total_requests(10_001, 5), 10_000);
    assert_eq!(requests_per_unit(10_004, 5), 2000);
    assert_eq!(total_requests(10_004, 5), 10_000);
}

#[test]
fn fewer_entities_than_units_issue_nothing() {
    assert_eq!(requests_per_unit(3, 5), 0);
    assert_eq!(total_requests(3, 5), 0);
}

#[test]
fn no_unit_issues_nothing() {
    assert_eq!(requests_per_unit(10_000, 0), 0);
    assert_eq!(total_requests(10_000, 0), 0);
}

#[test]
fn one_unit_issues_everything() {
    assert_eq!(requests_per_unit(usize::MAX, 1), usize::MAX);
    assert_eq!(total_requests(usize::MAX, 1), usize::MAX);
}

#[test]
fn total_is_units_times_share_and_never_above_entities() {
    for entities in [0usize, 1, 4, 5, 6, 99, 10_000, 10_001] {
        for units in [0usize, 1, 2, 5, 7, 100] {
            let share = requests_per_unit(entities, units);
            let total = total_requests(entities, units);
            assert_eq!(total, units * share);
            assert!(total <= entities);
            if units > 0 {
                assert_eq!(share, entities / units);
                assert_eq!(entities - total, entities % units);
            }
        }
    }
}

#[test]
fn schedule_puts_the_termination_check_after_every_unit() {
    let schedule = tick_schedule(10_001, 5);
    assert_eq!(schedule.len(), 6);
    for system in &schedule[..5] {
        assert_eq!(*system, TickSystem::WorkloadUnit { requests: 2000 });
    }
    assert_eq!(schedule[5], TickSystem::TerminationCheck);
}

#[test]
fn schedule_without_units_is_the_termination_check_alone() {
    assert_eq!(tick_schedule(10_000, 0), vec![TickSystem::TerminationCheck]);
}

#[test]
fn schedule_units_issue_the_total() {
    let schedule = tick_schedule(10_001, 7);
    let mut issued = 0usize;
    for system in &schedule {
        if let TickSystem::WorkloadUnit { requests } = system {
            issued += *requests;
        }
    }
    assert_eq!(issued, total_requests(10_001, 7));
    assert_eq!(issued, 9_996);
}

#[test]
fn per_unit_variant_loads_afresh() {
    let handle = SharedResourceHandle { id: 42 };
    assert_eq!(acquisition_for(WorkloadVariant::PerUnitRequest, handle), Acquisition::FreshLoad);
}

#[test]
fn shared_variant_clones_the_handle() {
    let handle = SharedResourceHandle { id: 42 };
    assert_eq!(
        acquisition_for(WorkloadVariant::SharedHandleReuse, handle),
        Acquisition::CloneShared { handle }
    );
}
