use vstd::prelude::*;

verus! {

/// One measured duration, in whole nanoseconds.
#[derive(Clone, Copy, Debug, PartialEq, Eq, Structural)]
pub struct TimingSample {
    pub nanos: u128,
}

/// The time from `start` to `now` on a clock that counts nanoseconds; zero
/// when `now` lies before `start`.
pub open spec fn elapsed_nanos(start: u128, now: u128) -> u128 {
    if now >= start {
        (now - start) as u128
    } else {
        0
    }
}

impl TimingSample {
    pub fn from_nanos(nanos: u128) -> (sample: TimingSample)
        ensures
            sample.nanos == nanos,
    {
        TimingSample { nanos }
    }

    pub fn as_nanos(&self) -> (nanos: u128)
        ensures
            nanos == self.nanos,
    {
        self.nanos
    }

    /// The sample for a phase that started at `start` and is over at `now`.
    pub fn between(start: u128, now: u128) -> (sample: TimingSample)
        ensures
            sample.nanos == elapsed_nanos(start, now),
    {
        if now >= start {
            TimingSample { nanos: now - start }
        } else {
            TimingSample { nanos: 0 }
        }
    }
}

} // verus!
