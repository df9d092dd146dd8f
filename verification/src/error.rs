use vstd::prelude::*;

verus! {

/// The fatal conditions of a benchmark run. None of them is recoverable: the
/// run that meets one reports no result.
#[derive(Clone, Copy, Debug, PartialEq, Eq, Structural)]
pub enum HarnessError {
    /// The shared resource reported `Failed` while its trial was loading.
    LoadFailed,
    /// A sample was sent while the timing channel already held as many
    /// samples as it has slots.
    ChannelFull,
    /// The timing channel was disconnected. A channel that holds both of its
    /// ends never is.
    ChannelClosed,
    /// A phase change, or a step of the per-tick protocol, was asked for in a
    /// state that does not allow it.
    InvalidTransition,
    /// More trials were asked for than the timing channel can have slots.
    TooManyTrials,
}

} // verus!
