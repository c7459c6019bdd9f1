use crate::error::ConfigError;
use vstd::arithmetic::power::pow;
use vstd::prelude::*;

verus! {

/// The factor by which the run count grows after a measurement that was too short.
pub const SCALE_FACTOR: usize = 10;

/// How often the run count may be scaled up for one input size: twelve times
/// tenfold, a factor of `10^12`, which is about `2^40`.
pub const MAX_SCALE_UPS: usize = 12;

/// What the scaler settled on for one input size: how many runs were timed
/// together and how long they took.
#[derive(Clone, Copy, Debug, PartialEq, Eq, Structural)]
pub struct ScaleResult {
    pub run_count: usize,
    pub total_duration_ns: u128,
}

/// What to do after one measurement.
#[derive(Clone, Copy, Debug, PartialEq, Eq, Structural)]
pub enum ScaleStep {
    /// The measurement is long enough: this is the result.
    Accept(ScaleResult),
    /// The measurement is too short: measure again with this run count.
    Retry { run_count: usize },
    /// The measurement is too short and no larger run count may be tried.
    GiveUp(ConfigError),
}

/// One thing that a workload was asked to do.
#[derive(Clone, Copy, Debug, PartialEq, Eq, Structural)]
pub enum WorkloadEvent {
    /// A fresh working sequence of `size` elements was materialised.
    Prepared { size: usize },
    /// The operation was invoked `run_count` times in immediate succession,
    /// and that took `elapsed_ns` nanoseconds.
    Measured { run_count: usize, elapsed_ns: u128 },
}

/// The operation under test together with the clock that times it.
///
/// `prepare` materialises a fresh working sequence of `size` elements.
/// `measure` invokes the operation `run_count` times in immediate succession
/// on the working sequence and returns the time that took, in nanoseconds.
///
/// `history` is the record of these requests, oldest first. A verified
/// workload defines it and proves that every request is recorded; the
/// default body is there for a workload that is not verified and keeps no
/// record.
pub trait Workload {
    open spec fn history(&self) -> Seq<WorkloadEvent> {
        Seq::empty()
    }

    fn prepare(&mut self, size: usize)
        ensures
            final(self).history() == old(self).history().push(WorkloadEvent::Prepared { size }),
    ;

    fn measure(&mut self, run_count: usize) -> (elapsed_ns: u128)
        ensures
            final(self).history() == old(self).history().push(
                WorkloadEvent::Measured { run_count, elapsed_ns },
            ),
    ;
}

/// The run count after `scale_ups` scale-ups: `initial * 10^scale_ups`.
pub open spec fn scaled_count(initial: nat, scale_ups: nat) -> nat {
    (initial * pow(SCALE_FACTOR as int, scale_ups)) as nat
}

/// The decision that follows a measurement of `elapsed_ns` nanoseconds, taken
/// with `run_count` runs after `scale_ups` scale-ups.
pub open spec fn step_spec(run_count: usize, scale_ups: usize, elapsed_ns: u128, min_ns: u128) -> ScaleStep {
    if elapsed_ns > min_ns {
        ScaleStep::Accept(ScaleResult { run_count, total_duration_ns: elapsed_ns })
    } else if scale_ups >= MAX_SCALE_UPS {
        ScaleStep::GiveUp(ConfigError::ScaleCapExceeded)
    } else if run_count * SCALE_FACTOR > usize::MAX {
        ScaleStep::GiveUp(ConfigError::RunCountOverflow)
    } else {
        ScaleStep::Retry { run_count: (run_count * SCALE_FACTOR) as usize }
    }
}

/// `outcome` is what the scaler returns when its successive measurements,
/// taken with the run counts `initial`, `10 * initial`, `100 * initial`, ..,
/// are the durations in `trace`: every measurement but the last was too
/// short, and the last one decides.
pub open spec fn scaling_outcome(
    trace: Seq<u128>,
    initial: usize,
    min_ns: u128,
    outcome: Result<ScaleResult, ConfigError>,
) -> bool {
    let scale_ups = (trace.len() - 1) as nat;
    &&& 1 <= trace.len() <= MAX_SCALE_UPS + 1
    &&& forall|j: int| 0 <= j < trace.len() - 1 ==> trace[j] <= min_ns
    &&& scaled_count(initial as nat, scale_ups) <= usize::MAX
    &&& outcome == if trace.last() > min_ns {
        Ok::<ScaleResult, ConfigError>(
            ScaleResult {
                run_count: scaled_count(initial as nat, scale_ups) as usize,
                total_duration_ns: trace.last(),
            },
        )
    } else if scale_ups == MAX_SCALE_UPS {
        Err(ConfigError::ScaleCapExceeded)
    } else {
        Err(ConfigError::RunCountOverflow)
    }
    &&& (outcome == Err::<ScaleResult, ConfigError>(ConfigError::RunCountOverflow)) ==> scaled_count(
        initial as nat,
        scale_ups + 1,
    ) > usize::MAX
}

/// What the scaler adds to the history of a workload when its measurements
/// are the durations in `trace`: the working sequence of `size` elements is
/// prepared once, and then measured with the run counts `initial`,
/// `10 * initial`, `100 * initial`, .., one measurement per duration.
pub open spec fn scaling_events(size: usize, initial: usize, trace: Seq<u128>) -> Seq<WorkloadEvent> {
    seq![WorkloadEvent::Prepared { size }] + Seq::new(
        trace.len(),
        |j: int|
            WorkloadEvent::Measured {
                run_count: scaled_count(initial as nat, j as nat) as usize,
                elapsed_ns: trace[j],
            },
    )
}

/// One more scale-up multiplies the run count by the scale factor.
pub proof fn lemma_scaled_count_step(initial: nat, scale_ups: nat)
    ensures
        scaled_count(initial, 0) == initial,
        scaled_count(initial, scale_ups + 1) == scaled_count(initial, scale_ups) * SCALE_FACTOR,
{
    vstd::arithmetic::power::lemma_pow0(SCALE_FACTOR as int);
    vstd::arithmetic::power::lemma_pow_positive(SCALE_FACTOR as int, scale_ups);
    vstd::arithmetic::power::lemma_pow_positive(SCALE_FACTOR as int, scale_ups + 1);
    let p = pow(SCALE_FACTOR as int, scale_ups);
    assert(pow(SCALE_FACTOR as int, scale_ups + 1) == SCALE_FACTOR * p) by {
        reveal(pow);
    }
    assert(initial * (10 * p) == (initial * p) * 10) by (nonlinear_arith);
    assert(initial * p >= 0) by (nonlinear_arith)
        requires
            initial >= 0,
            p > 0,
    ;
    assert(initial * (10 * p) >= 0) by (nonlinear_arith)
        requires
            initial >= 0,
            p > 0,
    ;
}

/// Decides what follows a measurement.
pub fn scale_step(run_count: usize, scale_ups: usize, elapsed_ns: u128, min_ns: u128) -> (step: ScaleStep)
    ensures
        step == step_spec(run_count, scale_ups, elapsed_ns, min_ns),
{
    if elapsed_ns > min_ns {
        ScaleStep::Accept(ScaleResult { run_count, total_duration_ns: elapsed_ns })
    } else if scale_ups >= MAX_SCALE_UPS {
        ScaleStep::GiveUp(ConfigError::ScaleCapExceeded)
    } else {
        match run_count.checked_mul(SCALE_FACTOR) {
            Some(next) => ScaleStep::Retry { run_count: next },
            None => ScaleStep::GiveUp(ConfigError::RunCountOverflow),
        }
    }
}

/// Finds, for one input size, a run count whose measured time exceeds the
/// shortest measurable duration `min_ns`.
///
/// The working sequence is prepared once. Then `initial_run_count` runs are
/// measured; as long as the measured time does not exceed `min_ns`, the run
/// count is multiplied by ten and the measurement repeated, at most
/// `MAX_SCALE_UPS` times.
pub fn run_scaler<W: Workload>(
    workload: &mut W,
    size: usize,
    initial_run_count: usize,
    min_ns: u128,
) -> (outcome: Result<ScaleResult, ConfigError>)
    ensures
        exists|trace: Seq<u128>|
            #![trigger scaling_outcome(trace, initial_run_count, min_ns, outcome)]
            scaling_outcome(trace, initial_run_count, min_ns, outcome)
                && final(workload).history() == old(workload).history() + scaling_events(
                size,
                initial_run_count,
                trace,
            ),
        outcome matches Ok(result) ==> result.total_duration_ns > min_ns,
{
    workload.prepare(size);
    let mut run_count: usize = initial_run_count;
    let mut scale_ups: usize = 0;
    let ghost mut trace: Seq<u128> = Seq::empty();
    proof {
        lemma_scaled_count_step(initial_run_count as nat, 0);
        assert(workload.history() =~= old(workload).history() + scaling_events(
            size,
            initial_run_count,
            trace,
        ));
    }
    loop
        invariant
            scale_ups <= MAX_SCALE_UPS,
            trace.len() == scale_ups,
            forall|j: int| 0 <= j < trace.len() ==> trace[j] <= min_ns,
            run_count == scaled_count(initial_run_count as nat, scale_ups as nat),
            workload.history() == old(workload).history() + scaling_events(size, initial_run_count, trace),
        decreases MAX_SCALE_UPS - scale_ups,
    {
        let elapsed_ns = workload.measure(run_count);
        proof {
            let ghost measured = trace;
            trace = trace.push(elapsed_ns);
            lemma_scaled_count_step(initial_run_count as nat, scale_ups as nat);
            assert(scaling_events(size, initial_run_count, trace) =~= scaling_events(
                size,
                initial_run_count,
                measured,
            ).push(WorkloadEvent::Measured { run_count, elapsed_ns }));
            assert(workload.history() =~= old(workload).history() + scaling_events(
                size,
                initial_run_count,
                trace,
            ));
        }
        match scale_step(run_count, scale_ups, elapsed_ns, min_ns) {
            ScaleStep::Accept(result) => {
                assert(scaling_outcome(trace, initial_run_count, min_ns, Ok(result)));
                return Ok(result);
            },
            ScaleStep::GiveUp(error) => {
                assert(scaling_outcome(trace, initial_run_count, min_ns, Err(error)));
                return Err(error);
            },
            ScaleStep::Retry { run_count: next } => {
                run_count = next;
                scale_ups = scale_ups + 1;
            },
        }
    }
}

/// A result that the scaler returns is never a short measurement: its
/// duration exceeds the shortest measurable duration, and where the scale-up
/// cap was hit the outcome is an error.
pub proof fn lemma_result_clears_threshold(
    trace: Seq<u128>,
    initial: usize,
    min_ns: u128,
    outcome: Result<ScaleResult, ConfigError>,
)
    requires
        scaling_outcome(trace, initial, min_ns, outcome),
    ensures
        outcome matches Ok(result) ==> result.total_duration_ns > min_ns,
        trace.last() <= min_ns ==> outcome is Err,
        (trace.last() <= min_ns && trace.len() == MAX_SCALE_UPS + 1) ==> outcome == Err::<
            ScaleResult,
            ConfigError,
        >(ConfigError::ScaleCapExceeded),
{
}

/// With an operation whose every call takes exactly `cost_ns`, the result's
/// duration is its run count times `cost_ns`, and its run count is the
/// smallest of the tested counts `initial`, `10 * initial`, `100 * initial`,
/// .. whose runs together take longer than `min_ns`.
pub proof fn lemma_fixed_cost_scaling(
    trace: Seq<u128>,
    initial: usize,
    min_ns: u128,
    cost_ns: nat,
    result: ScaleResult,
)
    requires
        scaling_outcome(trace, initial, min_ns, Ok(result)),
        forall|j: int| 0 <= j < trace.len() ==> trace[j] == scaled_count(initial as nat, j as nat) * cost_ns,
    ensures
        result.run_count == scaled_count(initial as nat, (trace.len() - 1) as nat),
        result.total_duration_ns == result.run_count * cost_ns,
        result.run_count * cost_ns > min_ns,
        forall|j: int|
            0 <= j < trace.len() - 1 ==> #[trigger] scaled_count(initial as nat, j as nat) * cost_ns <= min_ns,
{
    assert forall|j: int| 0 <= j < trace.len() - 1 implies #[trigger] scaled_count(
        initial as nat,
        j as nat,
    ) * cost_ns <= min_ns by {
        assert(trace[j] <= min_ns);
    }
}

} // verus!
