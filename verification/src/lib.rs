// A harness that times repeated trials of a resource-acquisition workload.
//
// Each trial walks a fixed lifecycle (load a shared resource, run one tick of
// workload units, end), the duration of the running phase is handed over a
// bounded channel, and the mean over all trials is the harness's result.

pub mod error;
pub mod phase;
pub mod sample;
pub mod channel;
pub mod aggregate;
pub mod workload;
pub mod trial;
pub mod runner;
