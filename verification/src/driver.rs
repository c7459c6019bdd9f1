use crate::config::BenchmarkConfig;
use crate::error::ConfigError;
use crate::record::{AggregateRecord, RunRecord};
use crate::scaler::{
    run_scaler, scaling_events, scaling_outcome, ScaleResult, Workload, WorkloadEvent,
};
use crate::sweep::{lemma_sweep_shape, sweep_trials, SizeTrial};
use vstd::prelude::*;

verus! {

/// What a sweep in aggregate mode produced: one record per input size, in
/// the order of the sweep, up to the size at which the scaler gave up, if it did.
#[derive(Debug)]
pub struct AggregateReport {
    pub records: Vec<AggregateRecord>,
    pub failure: Option<ConfigError>,
}

/// `record` is the row of aggregate mode for `trial`, made from a scaling
/// run whose measurements were the durations in `trace`: it carries the
/// parameters of the run and the size of the trial, and its run count and
/// duration are what the scaler, started from the configured run count,
/// settled on.
pub open spec fn aggregate_record_of(
    record: AggregateRecord,
    config: BenchmarkConfig,
    function_name: Seq<char>,
    prng_name: Seq<char>,
    trial: SizeTrial,
    trace: Seq<u128>,
) -> bool {
    &&& record.function_name@ == function_name
    &&& record.prng_name@ == prng_name
    &&& record.bucket_count == config.bucket_count
    &&& record.base_case_threshold == config.base_case_threshold
    &&& record.min_exponent == config.min_exponent
    &&& record.max_exponent == config.max_exponent
    &&& record.size == trial.size
    &&& record.total_duration_ns > config.min_measurable_duration_ns
    &&& scaling_outcome(
        trace,
        config.default_run_count,
        config.min_measurable_duration_ns,
        Ok(ScaleResult { run_count: record.run_count, total_duration_ns: record.total_duration_ns }),
    )
}

/// `measured` is what measuring `trial` in aggregate mode returns when the
/// measurements of the scaler are the durations in `trace`: the row, or the
/// error with which the scaler gave up.
pub open spec fn aggregate_measurement_of(
    measured: Result<AggregateRecord, ConfigError>,
    config: BenchmarkConfig,
    function_name: Seq<char>,
    prng_name: Seq<char>,
    trial: SizeTrial,
    trace: Seq<u128>,
) -> bool {
    match measured {
        Ok(record) => aggregate_record_of(record, config, function_name, prng_name, trial, trace),
        Err(error) => scaling_outcome(
            trace,
            config.default_run_count,
            config.min_measurable_duration_ns,
            Err(error),
        ),
    }
}

/// `report` is what a sweep in aggregate mode returns for `config` when the
/// measurements of the scaler for the sizes of the sweep, in its order, are
/// the durations in `traces`.
///
/// A configuration with a fault gives no record and that fault, and nothing
/// is measured. A valid one gives the records of the first sizes of the
/// sweep, in its order; all of them where nothing failed, and otherwise
/// those before the size at which the scaler gave up, whose measurements
/// are the last of `traces`.
pub open spec fn aggregate_report_of(
    report: AggregateReport,
    config: BenchmarkConfig,
    function_name: Seq<char>,
    prng_name: Seq<char>,
    traces: Seq<Seq<u128>>,
) -> bool {
    let trials = sweep_trials(config.min_exponent as nat, config.max_exponent as nat);
    if config.wf() {
        &&& report.records@.len() <= config.trial_count()
        &&& report.failure is None <==> report.records@.len() == config.trial_count()
        &&& traces.len() == report.records@.len() + if report.failure is Some {
            1int
        } else {
            0int
        }
        &&& forall|i: int|
            0 <= i < report.records@.len() ==> aggregate_record_of(
                #[trigger] report.records@[i],
                config,
                function_name,
                prng_name,
                trials[i],
                traces[i],
            )
        &&& report.failure matches Some(error) ==> scaling_outcome(
            traces.last(),
            config.default_run_count,
            config.min_measurable_duration_ns,
            Err(error),
        )
    } else {
        &&& report.records@.len() == 0
        &&& report.failure == config.fault()
        &&& traces.len() == 0
    }
}

/// What a sweep in aggregate mode adds to the history of a workload when
/// the measurements of the scaler for the first sizes of the sweep are the
/// durations in `traces`: the events of one scaling run after the other.
pub open spec fn sweep_events(config: BenchmarkConfig, traces: Seq<Seq<u128>>) -> Seq<WorkloadEvent>
    decreases traces.len(),
{
    if traces.len() == 0 {
        Seq::empty()
    } else {
        sweep_events(config, traces.drop_last()) + scaling_events(
            sweep_trials(config.min_exponent as nat, config.max_exponent as nat)[traces.len() - 1].size,
            config.default_run_count,
            traces.last(),
        )
    }
}

/// `record` is the row of per-run mode for the run with index `run_index` of `trial`.
pub open spec fn run_record_of(
    record: RunRecord,
    config: BenchmarkConfig,
    trial: SizeTrial,
    run_index: int,
) -> bool {
    &&& record.bucket_count == config.bucket_count
    &&& record.base_case_threshold == config.base_case_threshold
    &&& record.run_index == run_index
    &&& record.size == trial.size
}

/// `records` are the rows of a sweep in per-run mode with `runs` recorded
/// runs per input size: `runs` rows for every size, in the order of the
/// sweep, with the run indices `1` to `runs`. The warm-up run, of index 0,
/// has no row.
pub open spec fn run_records_of(records: Seq<RunRecord>, config: BenchmarkConfig, runs: nat) -> bool {
    let trials = sweep_trials(config.min_exponent as nat, config.max_exponent as nat);
    &&& records.len() == runs * config.trial_count()
    &&& forall|i: int|
        0 <= i < records.len() ==> run_record_of(
            #[trigger] records[i],
            config,
            trials[i / (runs as int)],
            i % (runs as int) + 1,
        )
}

/// The number of rows is fixed by the number of trials of the size sweep: a
/// sweep in aggregate mode that did not fail has one row per trial, and a
/// sweep in per-run mode has `runs` rows per trial.
pub proof fn lemma_row_counts(
    report: AggregateReport,
    run_records: Seq<RunRecord>,
    config: BenchmarkConfig,
    function_name: Seq<char>,
    prng_name: Seq<char>,
    traces: Seq<Seq<u128>>,
    runs: nat,
)
    requires
        config.wf(),
        aggregate_report_of(report, config, function_name, prng_name, traces),
        report.failure is None,
        run_records_of(run_records, config, runs),
    ensures
        report.records@.len() == sweep_trials(config.min_exponent as nat, config.max_exponent as nat).len(),
        run_records.len() == runs * sweep_trials(
            config.min_exponent as nat,
            config.max_exponent as nat,
        ).len(),
{
}

/// Measures one input size in aggregate mode: scales the run count, starting
/// from the configured one, until the measured time exceeds the shortest
/// measurable duration, and makes the row.
pub fn aggregate_record<W: Workload>(
    config: &BenchmarkConfig,
    function_name: &str,
    prng_name: &str,
    trial: &SizeTrial,
    workload: &mut W,
) -> (measured: Result<AggregateRecord, ConfigError>)
    ensures
        exists|trace: Seq<u128>|
            #![trigger aggregate_measurement_of(measured, *config, function_name@, prng_name@, *trial, trace)]
            aggregate_measurement_of(measured, *config, function_name@, prng_name@, *trial, trace)
                && final(workload).history() == old(workload).history() + scaling_events(
                trial.size,
                config.default_run_count,
                trace,
            ),
{
    let outcome = run_scaler(
        workload,
        trial.size,
        config.default_run_count,
        config.min_measurable_duration_ns,
    );
    let ghost trace = choose|trace: Seq<u128>|
        #![trigger scaling_outcome(trace, config.default_run_count, config.min_measurable_duration_ns, outcome)]
        scaling_outcome(trace, config.default_run_count, config.min_measurable_duration_ns, outcome)
            && workload.history() == old(workload).history() + scaling_events(
            trial.size,
            config.default_run_count,
            trace,
        );
    let measured = match outcome {
        Ok(result) => Ok(
            AggregateRecord {
                function_name: String::from_str(function_name),
                prng_name: String::from_str(prng_name),
                bucket_count: config.bucket_count,
                base_case_threshold: config.base_case_threshold,
                min_exponent: config.min_exponent,
                max_exponent: config.max_exponent,
                size: trial.size,
                run_count: result.run_count,
                total_duration_ns: result.total_duration_ns,
            },
        ),
        Err(error) => Err(error),
    };
    assert(aggregate_measurement_of(measured, *config, function_name@, prng_name@, *trial, trace));
    measured
}

/// Runs a sweep in aggregate mode: for every input size, smallest first, one
/// record with the run count that the scaler settled on and the time those
/// runs took. The sweep stops at the first size at which the scaler gives up.
pub fn run_aggregate<W: Workload>(
    config: &BenchmarkConfig,
    function_name: &str,
    prng_name: &str,
    workload: &mut W,
) -> (report: AggregateReport)
    ensures
        exists|traces: Seq<Seq<u128>>|
            #![trigger aggregate_report_of(report, *config, function_name@, prng_name@, traces)]
            aggregate_report_of(report, *config, function_name@, prng_name@, traces)
                && final(workload).history() == old(workload).history() + sweep_events(*config, traces),
{
    let mut records: Vec<AggregateRecord> = Vec::new();
    let ghost mut traces: Seq<Seq<u128>> = Seq::empty();
    let mut sweep = match config.sweep() {
        Ok(sweep) => sweep,
        Err(fault) => {
            let report = AggregateReport { records, failure: Some(fault) };
            proof {
                assert(workload.history() =~= old(workload).history() + sweep_events(*config, traces));
                assert(aggregate_report_of(report, *config, function_name@, prng_name@, traces));
            }
            return report;
        },
    };
    let ghost trials = sweep_trials(config.min_exponent as nat, config.max_exponent as nat);
    proof {
        lemma_sweep_shape(config.min_exponent as nat, config.max_exponent as nat);
        assert(workload.history() =~= old(workload).history() + sweep_events(*config, traces));
    }
    loop
        invariant
            config.wf(),
            trials == sweep_trials(config.min_exponent as nat, config.max_exponent as nat),
            trials.len() == config.trial_count(),
            records@.len() <= trials.len(),
            traces.len() == records@.len(),
            sweep@ == trials.skip(records@.len() as int),
            workload.history() == old(workload).history() + sweep_events(*config, traces),
            forall|i: int|
                0 <= i < records@.len() ==> aggregate_record_of(
                    #[trigger] records@[i],
                    *config,
                    function_name@,
                    prng_name@,
                    trials[i],
                    traces[i],
                ),
        decreases sweep@.len(),
    {
        let ghost done = records@.len() as int;
        let ghost before = workload.history();
        let trial = match sweep.next() {
            Some(trial) => trial,
            None => {
                let report = AggregateReport { records, failure: None };
                assert(aggregate_report_of(report, *config, function_name@, prng_name@, traces));
                return report;
            },
        };
        assert(trial == trials[done]);
        let measured = aggregate_record(config, function_name, prng_name, &trial, workload);
        let ghost trace = choose|trace: Seq<u128>|
            #![trigger aggregate_measurement_of(measured, *config, function_name@, prng_name@, trial, trace)]
            aggregate_measurement_of(measured, *config, function_name@, prng_name@, trial, trace)
                && workload.history() == before + scaling_events(
                trial.size,
                config.default_run_count,
                trace,
            );
        let ghost measured_traces = traces;
        proof {
            traces = traces.push(trace);
            assert(traces.drop_last() =~= measured_traces);
            assert(workload.history() =~= old(workload).history() + sweep_events(*config, traces));
        }
        match measured {
            Ok(record) => {
                records.push(record);
                assert(sweep@ =~= trials.skip(records@.len() as int));
            },
            Err(error) => {
                let report = AggregateReport { records, failure: Some(error) };
                assert(aggregate_report_of(report, *config, function_name@, prng_name@, traces));
                return report;
            },
        }
    }
}

/// What one timed run on a fresh working sequence adds to the history of a
/// workload: the sequence of `size` elements is prepared, and then a single
/// invocation is measured.
pub open spec fn fresh_run_events(size: usize, duration_ns: u128) -> Seq<WorkloadEvent> {
    seq![
        WorkloadEvent::Prepared { size },
        WorkloadEvent::Measured { run_count: 1, elapsed_ns: duration_ns },
    ]
}

/// The durations of rows of per-run mode, in the order of the rows.
pub open spec fn row_durations(records: Seq<RunRecord>) -> Seq<u128> {
    Seq::new(records.len(), |i: int| records[i].duration_ns)
}

/// What the recorded runs of one input size add to the history of a
/// workload: one timed run on a fresh working sequence per duration.
pub open spec fn recorded_run_events(size: usize, durations: Seq<u128>) -> Seq<WorkloadEvent>
    decreases durations.len(),
{
    if durations.len() == 0 {
        Seq::empty()
    } else {
        recorded_run_events(size, durations.drop_last()) + fresh_run_events(size, durations.last())
    }
}

/// What a sweep in per-run mode adds to the history of a workload for the
/// first sizes of the sweep, one per entry of `warm_ups`: for every size the
/// warm-up run, which took the duration in `warm_ups` and has no row, and
/// then the `runs` recorded runs, whose durations are those of the rows of
/// that size.
pub open spec fn per_run_events(
    config: BenchmarkConfig,
    runs: nat,
    warm_ups: Seq<u128>,
    records: Seq<RunRecord>,
) -> Seq<WorkloadEvent>
    decreases warm_ups.len(),
{
    if warm_ups.len() == 0 {
        Seq::empty()
    } else {
        let trial = warm_ups.len() - 1;
        let size = sweep_trials(config.min_exponent as nat, config.max_exponent as nat)[trial].size;
        per_run_events(config, runs, warm_ups.drop_last(), records) + fresh_run_events(
            size,
            warm_ups.last(),
        ) + recorded_run_events(
            size,
            row_durations(records.subrange(runs * trial, runs * trial + runs)),
        )
    }
}

/// `after` is the history of a workload that had the history `before` and
/// then went through a whole sweep in per-run mode, with the rows `records`
/// and the warm-up durations `warm_ups`, one per input size.
pub open spec fn per_run_history_of(
    before: Seq<WorkloadEvent>,
    after: Seq<WorkloadEvent>,
    config: BenchmarkConfig,
    runs: nat,
    warm_ups: Seq<u128>,
    records: Seq<RunRecord>,
) -> bool {
    &&& warm_ups.len() == config.trial_count()
    &&& after == before + per_run_events(config, runs, warm_ups, records)
}

/// The events of the first sizes of a sweep in per-run mode depend only on
/// the rows of those sizes: rows that follow them change nothing.
proof fn lemma_per_run_events_prefix(
    config: BenchmarkConfig,
    runs: nat,
    warm_ups: Seq<u128>,
    shorter: Seq<RunRecord>,
    longer: Seq<RunRecord>,
)
    requires
        shorter.len() >= runs * warm_ups.len(),
        longer.len() >= shorter.len(),
        forall|i: int| 0 <= i < shorter.len() ==> longer[i] == shorter[i],
    ensures
        per_run_events(config, runs, warm_ups, shorter) == per_run_events(config, runs, warm_ups, longer),
    decreases warm_ups.len(),
{
    if warm_ups.len() > 0 {
        let trial = warm_ups.len() - 1;
        assert(0 <= runs * trial && runs * trial + runs == runs * warm_ups.len()) by (nonlinear_arith)
            requires
                trial + 1 == warm_ups.len(),
                trial >= 0,
                runs >= 0,
        ;
        lemma_per_run_events_prefix(config, runs, warm_ups.drop_last(), shorter, longer);
        assert(shorter.subrange(runs * trial, runs * trial + runs) =~= longer.subrange(
            runs * trial,
            runs * trial + runs,
        ));
    }
}

/// Times the operation once on a fresh working sequence of `size` elements.
fn timed_fresh_run<W: Workload>(workload: &mut W, size: usize) -> (duration_ns: u128)
    ensures
        final(workload).history() == old(workload).history() + fresh_run_events(size, duration_ns),
{
    workload.prepare(size);
    let duration_ns = workload.measure(1);
    assert(workload.history() =~= old(workload).history() + fresh_run_events(size, duration_ns));
    duration_ns
}

/// Runs a sweep in per-run mode: for every input size, smallest first, one
/// warm-up run that is discarded and then `runs` recorded runs, each of them
/// a single invocation on a fresh working sequence.
pub fn run_per_run<W: Workload>(config: &BenchmarkConfig, runs: usize, workload: &mut W) -> (swept:
    Result<Vec<RunRecord>, ConfigError>)
    ensures
        match swept {
            Ok(records) => config.wf() && run_records_of(records@, *config, runs as nat),
            Err(fault) => config.fault() == Some(fault),
        },
        swept matches Ok(records) ==> exists|warm_ups: Seq<u128>|
            per_run_history_of(
                old(workload).history(),
                final(workload).history(),
                *config,
                runs as nat,
                warm_ups,
                records@,
            ),
        swept is Err ==> final(workload).history() == old(workload).history(),
{
    let mut sweep = match config.sweep() {
        Ok(sweep) => sweep,
        Err(fault) => {
            return Err(fault);
        },
    };
    let ghost trials = sweep_trials(config.min_exponent as nat, config.max_exponent as nat);
    let ghost mut swept_trials: int = 0;
    let ghost mut warm_ups: Seq<u128> = Seq::empty();
    let mut records: Vec<RunRecord> = Vec::new();
    proof {
        lemma_sweep_shape(config.min_exponent as nat, config.max_exponent as nat);
        assert(workload.history() =~= old(workload).history() + per_run_events(
            *config,
            runs as nat,
            warm_ups,
            records@,
        ));
    }
    loop
        invariant
            config.wf(),
            trials == sweep_trials(config.min_exponent as nat, config.max_exponent as nat),
            trials.len() == config.trial_count(),
            0 <= swept_trials <= trials.len(),
            warm_ups.len() == swept_trials,
            sweep@ == trials.skip(swept_trials),
            records@.len() == runs * swept_trials,
            workload.history() == old(workload).history() + per_run_events(
                *config,
                runs as nat,
                warm_ups,
                records@,
            ),
            forall|i: int|
                0 <= i < records@.len() ==> run_record_of(
                    #[trigger] records@[i],
                    *config,
                    trials[i / (runs as int)],
                    i % (runs as int) + 1,
                ),
        decreases sweep@.len(),
    {
        let trial = match sweep.next() {
            Some(trial) => trial,
            None => {
                let ghost rows = records@;
                assert(per_run_history_of(
                    old(workload).history(),
                    workload.history(),
                    *config,
                    runs as nat,
                    warm_ups,
                    rows,
                ));
                let swept: Result<Vec<RunRecord>, ConfigError> = Ok(records);
                assert(swept->Ok_0@ == rows);
                return swept;
            },
        };
        assert(trial == trials[swept_trials]);
        let ghost swept_records = records@;
        let ghost swept_history = workload.history();
        let warm_up = timed_fresh_run(workload, trial.size);
        let mut recorded: usize = 0;
        proof {
            assert(runs * swept_trials >= 0) by (nonlinear_arith)
                requires
                    runs >= 0,
                    swept_trials >= 0,
            ;
            assert(records@.subrange(runs * swept_trials, runs * swept_trials + recorded)
                =~= Seq::<RunRecord>::empty());
            assert(workload.history() =~= swept_history + fresh_run_events(trial.size, warm_up)
                + recorded_run_events(
                trial.size,
                row_durations(records@.subrange(runs * swept_trials, runs * swept_trials + recorded)),
            ));
        }
        while recorded < runs
            invariant
                recorded <= runs,
                0 <= swept_trials < trials.len(),
                trial == trials[swept_trials],
                0 <= runs * swept_trials == swept_records.len(),
                records@.len() == runs * swept_trials + recorded,
                forall|i: int| 0 <= i < swept_records.len() ==> records@[i] == swept_records[i],
                workload.history() == swept_history + fresh_run_events(trial.size, warm_up)
                    + recorded_run_events(
                    trial.size,
                    row_durations(
                        records@.subrange(runs * swept_trials, runs * swept_trials + recorded),
                    ),
                ),
                forall|i: int|
                    0 <= i < records@.len() ==> run_record_of(
                        #[trigger] records@[i],
                        *config,
                        trials[i / (runs as int)],
                        i % (runs as int) + 1,
                    ),
            decreases runs - recorded,
        {
            let duration_ns = timed_fresh_run(workload, trial.size);
            let ghost at = records@.len() as int;
            let ghost rows = records@.subrange(runs * swept_trials, runs * swept_trials + recorded);
            proof {
                assert(runs * swept_trials == swept_trials * runs) by (nonlinear_arith);
                vstd::arithmetic::div_mod::lemma_fundamental_div_mod_converse(
                    at,
                    runs as int,
                    swept_trials,
                    recorded as int,
                );
            }
            let row = RunRecord {
                bucket_count: config.bucket_count,
                base_case_threshold: config.base_case_threshold,
                run_index: recorded + 1,
                size: trial.size,
                duration_ns,
            };
            records.push(row);
            recorded = recorded + 1;
            proof {
                let longer = records@.subrange(runs * swept_trials, runs * swept_trials + recorded);
                assert(longer =~= rows.push(row));
                assert(row_durations(longer) =~= row_durations(rows).push(duration_ns));
                assert(row_durations(longer).drop_last() =~= row_durations(rows));
                assert(workload.history() =~= swept_history + fresh_run_events(trial.size, warm_up)
                    + recorded_run_events(trial.size, row_durations(longer)));
            }
        }
        proof {
            assert(runs * swept_trials + runs == runs * (swept_trials + 1)) by (nonlinear_arith);
            lemma_per_run_events_prefix(*config, runs as nat, warm_ups, swept_records, records@);
            let swept_warm_ups = warm_ups;
            warm_ups = warm_ups.push(warm_up);
            assert(warm_ups.drop_last() =~= swept_warm_ups);
            assert(workload.history() =~= old(workload).history() + per_run_events(
                *config,
                runs as nat,
                warm_ups,
                records@,
            ));
            swept_trials = swept_trials + 1;
            assert(sweep@ =~= trials.skip(swept_trials));
        }
    }
}

} // verus!
