use vstd::prelude::*;

verus! {

/// An opaque reference to the one resource that a trial loads. The loader
/// gives it out; the harness only stores it and hands it on.
#[derive(Clone, Copy, Debug, PartialEq, Eq, Structural)]
pub struct SharedResourceHandle {
    pub id: u64,
}

/// The two ways of acquiring the resource that the benchmark compares.
#[derive(Clone, Copy, Debug, PartialEq, Eq, Structural)]
pub enum WorkloadVariant {
    /// Every request asks the loader anew for the resource's path.
    PerUnitRequest,
    /// Every request clones the handle that the trial got while loading.
    SharedHandleReuse,
}

/// What one request of a workload unit does.
#[derive(Clone, Copy, Debug, PartialEq, Eq, Structural)]
pub enum Acquisition {
    FreshLoad,
    CloneShared { handle: SharedResourceHandle },
}

/// One entry of a tick's schedule. The entries run in the order of the
/// schedule.
#[derive(Clone, Copy, Debug, PartialEq, Eq, Structural)]
pub enum TickSystem {
    /// A workload unit that issues `requests` requests.
    WorkloadUnit { requests: usize },
    /// The check that ends the running phase.
    TerminationCheck,
}

/// The requests that each of `unit_count` units issues in a tick so that
/// `entity_count` are issued in all, as evenly as whole numbers allow: the
/// quotient, rounded down. No unit, no request.
pub open spec fn per_unit(entity_count: nat, unit_count: nat) -> nat {
    if unit_count == 0 {
        0
    } else {
        entity_count / unit_count
    }
}

/// The requests that all units together issue in a tick.
pub open spec fn issued_in_all(entity_count: nat, unit_count: nat) -> nat {
    unit_count * per_unit(entity_count, unit_count)
}

/// What a request does under `variant` in a trial whose shared handle is
/// `handle`.
pub open spec fn acquisition_of(variant: WorkloadVariant, handle: SharedResourceHandle) -> Acquisition {
    match variant {
        WorkloadVariant::PerUnitRequest => Acquisition::FreshLoad,
        WorkloadVariant::SharedHandleReuse => Acquisition::CloneShared { handle },
    }
}

/// The schedule of one tick: `unit_count` workload units, then the
/// termination check.
pub open spec fn schedule_of(entity_count: nat, unit_count: nat) -> Seq<TickSystem> {
    Seq::new(
        unit_count,
        |i: int| TickSystem::WorkloadUnit { requests: per_unit(entity_count, unit_count) as usize },
    ).push(TickSystem::TerminationCheck)
}

/// The requests that the entries of `schedule` issue together.
pub open spec fn requests_in(schedule: Seq<TickSystem>) -> nat
    decreases schedule.len(),
{
    if schedule.len() == 0 {
        0
    } else {
        requests_in(schedule.drop_last()) + match schedule.last() {
            TickSystem::WorkloadUnit { requests } => requests as nat,
            TickSystem::TerminationCheck => 0,
        }
    }
}

/// The units never issue more requests than there are entities, and what
/// they leave out is the remainder of the division: less than one request
/// per unit.
pub proof fn lemma_issued_in_all_bounds(entity_count: nat, unit_count: nat)
    ensures
        issued_in_all(entity_count, unit_count) <= entity_count,
        unit_count > 0 ==> issued_in_all(entity_count, unit_count) == entity_count - entity_count
            % unit_count,
        unit_count > 0 ==> entity_count - issued_in_all(entity_count, unit_count) < unit_count,
        unit_count == 0 ==> issued_in_all(entity_count, unit_count) == 0,
{
    if unit_count > 0 {
        let e = entity_count as int;
        let u = unit_count as int;
        assert(e == u * (e / u) + e % u && 0 <= e % u < u) by (nonlinear_arith)
            requires
                u > 0,
                e >= 0,
        ;
    }
}

/// `count` units, of those that share `entity_count` requests among
/// `unit_count`, issue no more than `entity_count` together.
pub proof fn lemma_partial_issue_bound(entity_count: nat, unit_count: nat, count: nat)
    requires
        count <= unit_count,
    ensures
        count * per_unit(entity_count, unit_count) <= issued_in_all(entity_count, unit_count),
        count * per_unit(entity_count, unit_count) <= entity_count,
{
    lemma_issued_in_all_bounds(entity_count, unit_count);
    let q = per_unit(entity_count, unit_count) as int;
    let c = count as int;
    let u = unit_count as int;
    assert(c * q <= u * q) by (nonlinear_arith)
        requires
            0 <= c <= u,
            q >= 0,
    ;
}

/// `count` workload units that issue `share` requests each issue `count`
/// times `share` together.
pub proof fn lemma_requests_of_units(count: nat, share: usize)
    ensures
        requests_in(Seq::new(count, |i: int| TickSystem::WorkloadUnit { requests: share }))
            == count * share,
    decreases count,
{
    let units = Seq::new(count, |i: int| TickSystem::WorkloadUnit { requests: share });
    if count > 0 {
        let fewer = Seq::new(
            (count - 1) as nat,
            |i: int| TickSystem::WorkloadUnit { requests: share },
        );
        lemma_requests_of_units((count - 1) as nat, share);
        assert(units.drop_last() =~= fewer);
        assert(units.last() == TickSystem::WorkloadUnit { requests: share });
        assert(count * share == (count - 1) * share + share) by (nonlinear_arith);
    } else {
        assert(units.len() == 0);
        assert(count * share == 0) by (nonlinear_arith)
            requires
                count == 0,
        ;
    }
}

/// A tick's schedule ends with the termination check, after every workload
/// unit, and its units issue `unit_count` times the per-unit share: as many
/// requests as there are entities, less the remainder of the division.
pub proof fn lemma_schedule_issues_in_all(entity_count: nat, unit_count: nat)
    requires
        entity_count <= usize::MAX,
    ensures
        schedule_of(entity_count, unit_count).len() == unit_count + 1,
        schedule_of(entity_count, unit_count).last() == TickSystem::TerminationCheck,
        forall|i: int|
            0 <= i < unit_count ==> #[trigger] schedule_of(entity_count, unit_count)[i]
                == (TickSystem::WorkloadUnit {
                requests: per_unit(entity_count, unit_count) as usize,
            }),
        requests_in(schedule_of(entity_count, unit_count)) == issued_in_all(
            entity_count,
            unit_count,
        ),
{
    let share = per_unit(entity_count, unit_count);
    lemma_partial_issue_bound(entity_count, unit_count, unit_count);
    if unit_count > 0 {
        assert(share <= entity_count) by (nonlinear_arith)
            requires
                unit_count * share <= entity_count,
                unit_count >= 1,
        ;
    }
    let units = Seq::new(unit_count, |i: int| TickSystem::WorkloadUnit { requests: share as usize });
    lemma_requests_of_units(unit_count, share as usize);
    assert(schedule_of(entity_count, unit_count).drop_last() =~= units);
}

/// The requests that each unit issues in a tick.
pub fn requests_per_unit(entity_count: usize, unit_count: usize) -> (requests: usize)
    ensures
        requests == per_unit(entity_count as nat, unit_count as nat),
        unit_count > 0 ==> requests == entity_count / unit_count,
{
    if unit_count == 0 {
        0
    } else {
        entity_count / unit_count
    }
}

/// The requests that all units together issue in a tick.
pub fn total_requests(entity_count: usize, unit_count: usize) -> (requests: usize)
    ensures
        requests == issued_in_all(entity_count as nat, unit_count as nat),
        requests <= entity_count,
{
    let share: usize = requests_per_unit(entity_count, unit_count);
    proof {
        lemma_issued_in_all_bounds(entity_count as nat, unit_count as nat);
    }
    unit_count * share
}

/// What a request does under `variant`.
pub fn acquisition_for(variant: WorkloadVariant, handle: SharedResourceHandle) -> (acquisition:
    Acquisition)
    ensures
        acquisition == acquisition_of(variant, handle),
{
    match variant {
        WorkloadVariant::PerUnitRequest => Acquisition::FreshLoad,
        WorkloadVariant::SharedHandleReuse => Acquisition::CloneShared { handle },
    }
}

/// The systems of one tick in the order in which they run: one entry for
/// each workload unit, then the termination check.
pub fn tick_schedule(entity_count: usize, unit_count: usize) -> (schedule: Vec<TickSystem>)
    requires
        unit_count < usize::MAX,
    ensures
        schedule@ == schedule_of(entity_count as nat, unit_count as nat),
{
    let share: usize = requests_per_unit(entity_count, unit_count);
    let mut schedule: Vec<TickSystem> = Vec::new();
    let mut placed: usize = 0;
    while placed < unit_count
        invariant
            placed <= unit_count,
            share == per_unit(entity_count as nat, unit_count as nat),
            schedule@ == Seq::new(
                placed as nat,
                |i: int| TickSystem::WorkloadUnit { requests: share },
            ),
        decreases unit_count - placed,
    {
        schedule.push(TickSystem::WorkloadUnit { requests: share });
        placed = placed + 1;
    }
    schedule.push(TickSystem::TerminationCheck);
    assert(schedule@ =~= schedule_of(entity_count as nat, unit_count as nat));
    schedule
}

} // verus!
