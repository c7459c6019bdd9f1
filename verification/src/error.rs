use vstd::prelude::*;

verus! {

/// Why a benchmark cannot run, or cannot go on, with the configuration it was given.
#[derive(Clone, Copy, Debug, PartialEq, Eq, Structural)]
pub enum ConfigError {
    /// The smallest exponent is larger than the largest one.
    EmptyExponentRange,
    /// Two to the power of the largest exponent does not fit a `usize`.
    SizeOverflow,
    /// The run count to start from is zero.
    ZeroRunCount,
    /// The run count was scaled up as often as allowed and the measured time
    /// still did not exceed the shortest measurable duration.
    ScaleCapExceeded,
    /// The next larger run count does not fit a `usize`.
    RunCountOverflow,
}

} // verus!
