use shuffle_bench::config::BenchmarkConfig;
use shuffle_bench::driver::{aggregate_record, run_aggregate, run_per_run};
use shuffle_bench::error::ConfigError;
use shuffle_bench::harness::{write_aggregate, write_runs};
use shuffle_bench::record::RunRecord;
use shuffle_bench::scaler::{Workload, MAX_SCALE_UPS};
use shuffle_bench::sink::RecordSink;
use shuffle_bench::sweep::SizeTrial;

/// An operation whose every call takes exactly `cost_ns`, or nothing at all
/// from the size `free_from` on.
struct Stub {
    cost_ns: u128,
    free_from: usize,
    size: usize,
    prepared: Vec<usize>,
    measured: Vec<(usize, usize)>,
}

impl Stub {
    fn new(cost_ns: u128) -> Stub {
        Stub { cost_ns, free_from: usize::MAX, size: 0, prepared: Vec::new(), measured: Vec::new() }
    }
}

impl Workload for Stub {
    fn prepare(&mut self, size: usize) {
        self.size = size;
        self.prepared.push(size);
    }

    fn measure(&mut self, run_count: usize) -> u128 {
        self.measured.push((self.size, run_count));
        if self.size >= self.free_from {
            0
        } else {
            run_count as u128 * self.cost_ns
        }
    }
}

fn config(min_exponent: usize, max_exponent: usize, min_ns: u128) -> BenchmarkConfig {
    BenchmarkConfig {
        bucket_count: 4,
        base_case_threshold: 256,
        min_exponent,
        max_exponent,
        default_run_count: 10,
        min_measurable_duration_ns: min_ns,
    }
}

#[test]
fn aggregate_end_to_end_with_unit_cost() {
    let config = config(0, 3, 0);
    let mut stub = Stub::new(1);
    let report = run_aggregate(&config, "stub", "none", &mut stub);
    assert_eq!(report.failure, None);
    assert_eq!(report.records.len(), 4);
    let sizes: Vec<usize> = report.records.iter().map(|r| r.size).collect();
    assert_eq!(sizes, vec![1, 2, 4, 8]);
    for record in &report.records {
        assert_eq!(record.run_count, 10);
        assert_eq!(record.total_duration_ns, 10);
        assert_eq!(record.function_name, "stub");
        assert_eq!(record.prng_name, "none");
        assert_eq!(record.bucket_count, 4);
        assert_eq!(record.base_case_threshold, 256);
        assert_eq!(record.min_exponent, 0);
        assert_eq!(record.max_exponent, 3);
    }
    assert_eq!(stub.prepared, vec![1, 2, 4, 8]);
    assert_eq!(stub.measured, vec![(1, 10), (2, 10), (4, 10), (8, 10)]);
}

#[test]
fn aggregate_has_one_row_per_trial() {
    for (min, max) in [(0usize, 0usize), (0, 5), (3, 9), (7, 7)] {
        let mut stub = Stub::new(2);
        let report = run_aggregate(&config(min, max, 50), "stub", "none", &mut stub);
        assert_eq!(report.failure, None);
        assert_eq!(report.records.len(), max - min + 1);
        for (i, record) in report.records.iter().enumerate() {
            assert_eq!(record.size, 1usize << (min + i));
            assert_eq!(record.run_count, 100);
            assert_eq!(record.total_duration_ns, 200);
        }
    }
}

#[test]
fn aggregate_stops_where_the_scaler_gives_up_and_keeps_earlier_rows() {
    let mut stub = Stub::new(1);
    stub.free_from = 4;
    let report = run_aggregate(&config(0, 5, 0), "stub", "none", &mut stub);
    assert_eq!(report.failure, Some(ConfigError::ScaleCapExceeded));
    let sizes: Vec<usize> = report.records.iter().map(|r| r.size).collect();
    assert_eq!(sizes, vec![1, 2]);
    assert_eq!(stub.prepared, vec![1, 2, 4]);
    assert_eq!(stub.measured.len(), 2 + MAX_SCALE_UPS + 1);
}

#[test]
fn aggregate_rejects_a_faulty_configuration_before_any_measurement() {
    let mut stub = Stub::new(1);
    let report = run_aggregate(&config(3, 2, 0), "stub", "none", &mut stub);
    assert_eq!(report.failure, Some(ConfigError::EmptyExponentRange));
    assert!(report.records.is_empty());

    let report = run_aggregate(&config(0, usize::BITS as usize, 0), "stub", "none", &mut stub);
    assert_eq!(report.failure, Some(ConfigError::SizeOverflow));
    assert!(report.records.is_empty());

    let mut zero_runs = config(0, 3, 0);
    zero_runs.default_run_count = 0;
    let report = run_aggregate(&zero_runs, "stub", "none", &mut stub);
    assert_eq!(report.failure, Some(ConfigError::ZeroRunCount));
    assert!(report.records.is_empty());

    assert!(stub.prepared.is_empty());
    assert!(stub.measured.is_empty());
}

#[test]
fn aggregate_record_for_one_trial() {
    let mut stub = Stub::new(5);
    let trial = SizeTrial { size: 16, exponent: 4 };
    let record = aggregate_record(&config(0, 9, 499), "stub", "none", &trial, &mut stub).unwrap();
    assert_eq!(record.size, 16);
    assert_eq!(record.run_count, 100);
    assert_eq!(record.total_duration_ns, 500);
    assert_eq!(record.min_exponent, 0);
    assert_eq!(record.max_exponent, 9);

    let mut free = Stub::new(0);
    let failed = aggregate_record(&config(0, 9, 499), "stub", "none", &trial, &mut free);
    assert_eq!(failed.err(), Some(ConfigError::ScaleCapExceeded));
}

#[test]
fn per_run_mode_discards_the_warm_up_run() {
    let mut stub = Stub::new(7);
    let records = run_per_run(&config(3, 3, 0), 2, &mut stub).unwrap();
    assert_eq!(
        records,
        vec![
            RunRecord { bucket_count: 4, base_case_threshold: 256, run_index: 1, size: 8, duration_ns: 7 },
            RunRecord { bucket_count: 4, base_case_threshold: 256, run_index: 2, size: 8, duration_ns: 7 },
        ]
    );
    assert!(records.iter().all(|r| r.run_index != 0));
    assert_eq!(stub.prepared, vec![8, 8, 8]);
    assert_eq!(stub.measured, vec![(8, 1), (8, 1), (8, 1)]);
}

#[test]
fn per_run_mode_has_runs_times_trials_rows() {
    let mut stub = Stub::new(1);
    let records = run_per_run(&config(0, 3, 0), 3, &mut stub).unwrap();
    assert_eq!(records.len(), 12);
    for (i, record) in records.iter().enumerate() {
        assert_eq!(record.size, 1usize << (i / 3));
        assert_eq!(record.run_index, i % 3 + 1);
        assert_eq!(record.duration_ns, 1);
    }
    assert_eq!(stub.prepared.len(), 16);
}

#[test]
fn per_run_mode_without_recorded_runs_has_no_rows() {
    let mut stub = Stub::new(1);
    let records = run_per_run(&config(0, 3, 0), 0, &mut stub).unwrap();
    assert!(records.is_empty());
    assert_eq!(stub.prepared, vec![1, 2, 4, 8]);
}

#[test]
fn per_run_mode_rejects_a_faulty_configuration() {
    let mut stub = Stub::new(1);
    assert_eq!(run_per_run(&config(5, 1, 0), 2, &mut stub).err(), Some(ConfigError::EmptyExponentRange));
    assert_eq!(
        run_per_run(&config(0, usize::MAX, 0), 2, &mut stub).err(),
        Some(ConfigError::SizeOverflow)
    );
    let mut zero_runs = config(0, 3, 0);
    zero_runs.default_run_count = 0;
    assert_eq!(run_per_run(&zero_runs, 2, &mut stub).err(), Some(ConfigError::ZeroRunCount));
    assert!(stub.measured.is_empty());
}

#[test]
fn aggregate_end_to_end_rows_as_csv() {
    let mut stub = Stub::new(1);
    let report = run_aggregate(&config(0, 3, 0), "stub", "none", &mut stub);
    let mut sink = RecordSink::new();
    assert_eq!(write_aggregate(&mut sink, &report.records), None);
    assert_eq!(
        String::from_utf8(sink.into_bytes()).unwrap(),
        "function,prng,buckets,threshold,min_exp,max_exp,integers,total_runs,total_runtime\n\
         stub,none,4,256,0,3,1,10,10\n\
         stub,none,4,256,0,3,2,10,10\n\
         stub,none,4,256,0,3,4,10,10\n\
         stub,none,4,256,0,3,8,10,10\n"
    );
}

#[test]
fn per_run_end_to_end_rows_as_csv() {
    let mut stub = Stub::new(7);
    let records = run_per_run(&config(3, 3, 0), 2, &mut stub).unwrap();
    let mut sink = RecordSink::new();
    assert_eq!(write_runs(&mut sink, &records), None);
    assert_eq!(
        String::from_utf8(sink.into_bytes()).unwrap(),
        "buckets,threshold,run,integers,runtime\n4,256,1,8,7\n4,256,2,8,7\n"
    );
}
