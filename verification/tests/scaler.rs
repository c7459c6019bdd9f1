use shuffle_bench::error::ConfigError;
use shuffle_bench::scaler::{
    run_scaler, scale_step, ScaleResult, ScaleStep, Workload, MAX_SCALE_UPS, SCALE_FACTOR,
};

/// An operation whose every call takes exactly `cost_ns`.
struct FixedCost {
    cost_ns: u128,
    prepared: Vec<usize>,
    measured: Vec<usize>,
}

impl FixedCost {
    fn new(cost_ns: u128) -> FixedCost {
        FixedCost { cost_ns, prepared: Vec::new(), measured: Vec::new() }
    }
}

impl Workload for FixedCost {
    fn prepare(&mut self, size: usize) {
        self.prepared.push(size);
    }

    fn measure(&mut self, run_count: usize) -> u128 {
        self.measured.push(run_count);
        run_count as u128 * self.cost_ns
    }
}

/// Replays a list of durations, one per measurement.
struct Scripted {
    durations: Vec<u128>,
    measured: Vec<usize>,
}

impl Workload for Scripted {
    fn prepare(&mut self, _size: usize) {}

    fn measure(&mut self, run_count: usize) -> u128 {
        let duration = self.durations[self.measured.len()];
        self.measured.push(run_count);
        duration
    }
}

#[test]
fn scale_constants() {
    assert_eq!(SCALE_FACTOR, 10);
    assert_eq!(MAX_SCALE_UPS, 12);
}

#[test]
fn step_accepts_a_duration_above_the_threshold() {
    assert_eq!(
        scale_step(10, 0, 101, 100),
        ScaleStep::Accept(ScaleResult { run_count: 10, total_duration_ns: 101 })
    );
    assert_eq!(
        scale_step(7, MAX_SCALE_UPS, 1, 0),
        ScaleStep::Accept(ScaleResult { run_count: 7, total_duration_ns: 1 })
    );
}

#[test]
fn step_retries_tenfold_when_the_duration_is_not_above_the_threshold() {
    assert_eq!(scale_step(10, 0, 100, 100), ScaleStep::Retry { run_count: 100 });
    assert_eq!(scale_step(10, 3, 0, 100), ScaleStep::Retry { run_count: 100 });
    assert_eq!(scale_step(1, MAX_SCALE_UPS - 1, 0, 0), ScaleStep::Retry { run_count: 10 });
}

#[test]
fn step_gives_up_at_the_cap() {
    assert_eq!(
        scale_step(10, MAX_SCALE_UPS, 100, 100),
        ScaleStep::GiveUp(ConfigError::ScaleCapExceeded)
    );
    assert_eq!(
        scale_step(usize::MAX, MAX_SCALE_UPS + 5, 0, 100),
        ScaleStep::GiveUp(ConfigError::ScaleCapExceeded)
    );
}

#[test]
fn step_gives_up_when_the_next_run_count_does_not_fit() {
    assert_eq!(
        scale_step(usize::MAX / 10 + 1, 0, 0, 100),
        ScaleStep::GiveUp(ConfigError::RunCountOverflow)
    );
    assert_eq!(
        scale_step(usize::MAX / 10, 0, 0, 100),
        ScaleStep::Retry { run_count: usize::MAX / 10 * 10 }
    );
}

#[test]
fn scaler_returns_at_once_when_the_threshold_is_zero() {
    let mut stub = FixedCost::new(1);
    let result = run_scaler(&mut stub, 8, 10, 0);
    assert_eq!(result, Ok(ScaleResult { run_count: 10, total_duration_ns: 10 }));
    assert_eq!(stub.prepared, vec![8]);
    assert_eq!(stub.measured, vec![10]);
}

#[test]
fn scaler_settles_on_the_smallest_tested_count_that_clears_the_threshold() {
    let mut stub = FixedCost::new(3);
    let result = run_scaler(&mut stub, 64, 10, 1000);
    assert_eq!(result, Ok(ScaleResult { run_count: 1000, total_duration_ns: 3000 }));
    assert_eq!(stub.measured, vec![10, 100, 1000]);
    assert_eq!(stub.prepared, vec![64]);
}

#[test]
fn scaler_duration_is_run_count_times_cost() {
    for cost in [1u128, 2, 7, 250] {
        for min in [0u128, 9, 10, 999, 1000, 123_456] {
            let mut stub = FixedCost::new(cost);
            let result = run_scaler(&mut stub, 4, 10, min).unwrap();
            assert_eq!(result.total_duration_ns, result.run_count as u128 * cost);
            assert!(result.total_duration_ns > min);
            let mut expected = 10usize;
            while expected as u128 * cost <= min {
                expected *= 10;
            }
            assert_eq!(result.run_count, expected);
        }
    }
}

#[test]
fn scaler_needs_a_duration_strictly_above_the_threshold() {
    let mut stub = Scripted { durations: vec![100, 101], measured: Vec::new() };
    let result = run_scaler(&mut stub, 1, 5, 100);
    assert_eq!(result, Ok(ScaleResult { run_count: 50, total_duration_ns: 101 }));
    assert_eq!(stub.measured, vec![5, 50]);
}

#[test]
fn scaler_reports_the_cap_for_an_operation_without_cost() {
    let mut stub = FixedCost::new(0);
    let result = run_scaler(&mut stub, 0, 1, 0);
    assert_eq!(result, Err(ConfigError::ScaleCapExceeded));
    assert_eq!(stub.measured.len(), MAX_SCALE_UPS + 1);
    assert_eq!(stub.measured[0], 1);
    assert_eq!(stub.measured[MAX_SCALE_UPS], 1_000_000_000_000);
}

#[test]
fn scaler_accepts_the_measurement_at_the_cap() {
    let mut durations = vec![0u128; MAX_SCALE_UPS];
    durations.push(1);
    let mut stub = Scripted { durations, measured: Vec::new() };
    let result = run_scaler(&mut stub, 2, 1, 0);
    assert_eq!(result, Ok(ScaleResult { run_count: 1_000_000_000_000, total_duration_ns: 1 }));
}

#[test]
fn scaler_reports_a_run_count_that_does_not_fit() {
    let mut stub = FixedCost::new(0);
    let start = usize::MAX / 100;
    let result = run_scaler(&mut stub, 1, start, 5);
    assert_eq!(result, Err(ConfigError::RunCountOverflow));
    assert_eq!(stub.measured, vec![start, start * 10, start * 100]);
}

#[test]
fn scaler_with_zero_runs_to_start_from_hits_the_cap() {
    let mut stub = FixedCost::new(5);
    let result = run_scaler(&mut stub, 1, 0, 0);
    assert_eq!(result, Err(ConfigError::ScaleCapExceeded));
    assert!(stub.measured.iter().all(|&count| count == 0));
}
