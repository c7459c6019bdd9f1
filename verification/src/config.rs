use crate::error::ConfigError;
use crate::shuffle::ShuffleWorkload;
use crate::sweep::{sweep_trials, SizeSweep};
use vstd::arithmetic::power2::pow2;
use vstd::prelude::*;

verus! {

/// What one benchmark run is asked to do. It is set up once and only read
/// afterwards.
#[derive(Clone, Copy, Debug, PartialEq, Eq, Structural)]
pub struct BenchmarkConfig {
    /// The number of buckets of the operation under test; it is recorded, not used.
    pub bucket_count: usize,
    /// The base case threshold of the operation under test; it is recorded, not used.
    pub base_case_threshold: usize,
    /// The smallest input size is `2^min_exponent`.
    pub min_exponent: usize,
    /// The largest input size is `2^max_exponent`.
    pub max_exponent: usize,
    /// The run count that the scaler starts from for every input size.
    pub default_run_count: usize,
    /// The duration, in nanoseconds, that a measurement has to exceed to count.
    pub min_measurable_duration_ns: u128,
}

/// How many nanoseconds a millisecond has.
pub const NANOS_PER_MILLI: u128 = 1_000_000;

impl BenchmarkConfig {
    /// The first fault of the configuration, if it has one.
    pub open spec fn fault(self) -> Option<ConfigError> {
        if self.min_exponent > self.max_exponent {
            Some(ConfigError::EmptyExponentRange)
        } else if pow2(self.max_exponent as nat) > usize::MAX {
            Some(ConfigError::SizeOverflow)
        } else if self.default_run_count == 0 {
            Some(ConfigError::ZeroRunCount)
        } else {
            None
        }
    }

    /// The configuration is valid: the exponent range is not empty, every
    /// size of it fits a `usize`, and the run count to start from is positive.
    pub open spec fn wf(self) -> bool {
        &&& self.min_exponent <= self.max_exponent
        &&& pow2(self.max_exponent as nat) <= usize::MAX
        &&& self.default_run_count >= 1
    }

    /// How many input sizes the configuration asks for.
    pub open spec fn trial_count(self) -> nat {
        (self.max_exponent + 1 - self.min_exponent) as nat
    }

    /// The size sweep that the configuration asks for, or its first fault.
    pub fn sweep(&self) -> (sweep: Result<SizeSweep, ConfigError>)
        ensures
            match sweep {
                Ok(trials) => self.wf() && trials@ == sweep_trials(
                    self.min_exponent as nat,
                    self.max_exponent as nat,
                ),
                Err(fault) => self.fault() == Some(fault),
            },
    {
        match SizeSweep::new(self.min_exponent, self.max_exponent) {
            Ok(trials) => {
                if self.default_run_count == 0 {
                    Err(ConfigError::ZeroRunCount)
                } else {
                    Ok(trials)
                }
            },
            Err(fault) => Err(fault),
        }
    }

    /// Checks the configuration and names its first fault.
    pub fn check(&self) -> (checked: Result<(), ConfigError>)
        ensures
            checked is Ok <==> self.wf(),
            checked matches Err(e) ==> self.fault() == Some(e),
    {
        match self.sweep() {
            Ok(_) => Ok(()),
            Err(fault) => Err(fault),
        }
    }

    /// The configuration for the sequential shuffle: the bucket count and
    /// the threshold that are recorded for it, the sizes `2^0` to `2^29`, ten runs to start
    /// from, and a shortest measurable duration of 100 milliseconds.
    pub fn seq_shuffle_default() -> (config: BenchmarkConfig)
        ensures
            config.wf(),
            config == (BenchmarkConfig {
                bucket_count: 128,
                base_case_threshold: 262144,
                min_exponent: 0,
                max_exponent: 29,
                default_run_count: 10,
                min_measurable_duration_ns: 100_000_000,
            }),
    {
        proof {
            vstd::arithmetic::power2::lemma2_to64();
        }
        BenchmarkConfig {
            bucket_count: ShuffleWorkload::bucket_count(),
            base_case_threshold: ShuffleWorkload::base_case_threshold(),
            min_exponent: 0,
            max_exponent: 29,
            default_run_count: 10,
            min_measurable_duration_ns: millis_to_nanos(100),
        }
    }
}

/// A duration of whole milliseconds, in nanoseconds.
pub fn millis_to_nanos(millis: u64) -> (nanos: u128)
    ensures
        nanos == millis * NANOS_PER_MILLI,
{
    (millis as u128) * NANOS_PER_MILLI
}

} // verus!
