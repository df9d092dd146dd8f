use vstd::prelude::*;
use crate::sample::TimingSample;

verus! {

/// The sum of `samples`, in nanoseconds.
pub open spec fn total_nanos(samples: Seq<TimingSample>) -> nat
    decreases samples.len(),
{
    if samples.len() == 0 {
        0
    } else {
        total_nanos(samples.drop_last()) + samples.last().nanos as nat
    }
}

/// The mean of `samples` over `trial_count` trials, rounded down to a whole
/// nanosecond. There is none over zero trials, nor where the sum is more than
/// a sample can hold.
pub open spec fn mean_of(samples: Seq<TimingSample>, trial_count: nat) -> Option<TimingSample> {
    if trial_count == 0 || total_nanos(samples) > u128::MAX {
        None
    } else {
        Some(TimingSample { nanos: (total_nanos(samples) / trial_count) as u128 })
    }
}

/// The sum of a sequence is the sum of any of its prefixes plus what the rest
/// adds, so no prefix sums to more than the whole.
pub proof fn lemma_total_of_prefix(samples: Seq<TimingSample>, count: int)
    requires
        0 <= count <= samples.len(),
    ensures
        total_nanos(samples.take(count)) <= total_nanos(samples),
    decreases samples.len() - count,
{
    if count == samples.len() {
        assert(samples.take(count) =~= samples);
    } else {
        lemma_total_of_prefix(samples, count + 1);
        assert(samples.take(count + 1).drop_last() =~= samples.take(count));
    }
}

/// A mean is the sum divided by the number of trials and rounded down: it
/// is off by less than a nanosecond.
pub proof fn lemma_mean_rounds_down(samples: Seq<TimingSample>, trial_count: nat)
    ensures
        mean_of(samples, trial_count) is Some <==> trial_count >= 1 && total_nanos(samples)
            <= u128::MAX,
        mean_of(samples, trial_count) matches Some(average) ==> average.nanos * trial_count
            <= total_nanos(samples) < (average.nanos + 1) * trial_count,
{
    if mean_of(samples, trial_count) is Some {
        let total = total_nanos(samples) as int;
        let count = trial_count as int;
        assert(0 <= total / count <= total && (total / count) * count <= total < (total / count
            + 1) * count) by (nonlinear_arith)
            requires
                total >= 0,
                count >= 1,
        ;
    }
}

/// The sum of `samples`, or `None` when it is more than `u128::MAX`.
pub fn checked_total(samples: &Vec<TimingSample>) -> (total: Option<u128>)
    ensures
        total matches Some(sum) ==> sum == total_nanos(samples@),
        total is None <==> total_nanos(samples@) > u128::MAX,
{
    let mut sum: u128 = 0;
    let mut taken: usize = 0;
    assert(samples@.take(0) =~= Seq::<TimingSample>::empty());
    while taken < samples.len()
        invariant
            taken <= samples.len(),
            sum == total_nanos(samples@.take(taken as int)),
        decreases samples.len() - taken,
    {
        let nanos: u128 = samples[taken].nanos;
        proof {
            assert(samples@.take(taken + 1).drop_last() =~= samples@.take(taken as int));
            lemma_total_of_prefix(samples@, taken + 1);
        }
        match sum.checked_add(nanos) {
            Some(next) => {
                sum = next;
            },
            None => {
                return None;
            },
        }
        taken = taken + 1;
    }
    assert(samples@.take(taken as int) =~= samples@);
    Some(sum)
}

/// The mean of `samples` over `trial_count` trials.
pub fn mean(samples: &Vec<TimingSample>, trial_count: usize) -> (average: Option<TimingSample>)
    ensures
        average == mean_of(samples@, trial_count as nat),
{
    if trial_count == 0 {
        return None;
    }
    match checked_total(samples) {
        Some(sum) => Some(TimingSample { nanos: sum / (trial_count as u128) }),
        None => None,
    }
}

} // verus!
