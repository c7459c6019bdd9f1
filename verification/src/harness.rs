use crate::config::BenchmarkConfig;
use crate::driver::{aggregate_report_of, run_aggregate, AggregateReport};
use crate::record::{AggregateRecord, CsvRecord, RunRecord};
use crate::shuffle::ShuffleWorkload;
use crate::sink::{csv_bytes, RecordSink, SinkError};
use vstd::prelude::*;

verus! {

/// The records of a CSV text: the column names, then one record per row, in
/// the order of the rows.
pub open spec fn rows_text<R: CsvRecord>(records: Seq<R>) -> Seq<Seq<Seq<char>>> {
    Seq::new(
        records.len() + 1,
        |i: int|
            if i == 0 {
                R::header_text()
            } else {
                records[i - 1].fields_text()
            },
    )
}

/// Writes the header row and then the records, in their order, into a sink
/// that holds nothing yet. A sink that has a header already is left as it is.
fn write_records<R: CsvRecord>(sink: &mut RecordSink, records: &Vec<R>) -> (failure: Option<SinkError>)
    requires
        old(sink).wf(),
    ensures
        final(sink).wf(),
        old(sink).records().len() > 0 ==> failure == Some(SinkError::HeaderAlreadyWritten),
        old(sink).records().len() > 0 ==> final(sink).records() == old(sink).records(),
        old(sink).records().len() == 0 ==> failure is None,
        old(sink).records().len() == 0 ==> final(sink).records() == rows_text(records@),
{
    let ghost full = rows_text(records@);
    let header = R::header();
    if let Err(error) = sink.write_header(&header) {
        return Some(error);
    }
    assert(sink.records() =~= full.take(1));
    let mut next: usize = 0;
    while next < records.len()
        invariant
            sink.wf(),
            old(sink).records().len() == 0,
            next <= records.len(),
            full == rows_text(records@),
            sink.records() == full.take(next + 1),
        decreases records.len() - next,
    {
        let fields = records[next].fields();
        assert(fields.deep_view() == full[next + 1]);
        assert(sink.records()[0] == full[0]);
        let _ = sink.write_row(&fields);
        next = next + 1;
        assert(sink.records() =~= full.take(next + 1));
    }
    assert(full.take(next + 1) =~= full);
    None
}

/// Writes the header row of aggregate mode and then the records, in their
/// order, into a sink that holds nothing yet. A sink that has a header
/// already is refused and left as it is.
pub fn write_aggregate(sink: &mut RecordSink, records: &Vec<AggregateRecord>) -> (failure: Option<
    SinkError,
>)
    requires
        old(sink).wf(),
    ensures
        final(sink).wf(),
        old(sink).records().len() > 0 ==> failure == Some(SinkError::HeaderAlreadyWritten),
        old(sink).records().len() > 0 ==> final(sink).records() == old(sink).records(),
        old(sink).records().len() == 0 ==> failure is None,
        old(sink).records().len() == 0 ==> final(sink).records() == rows_text(records@),
{
    write_records(sink, records)
}

/// Writes the header row of per-run mode and then the records, in their
/// order, into a sink that holds nothing yet. A sink that has a header
/// already is refused and left as it is.
pub fn write_runs(sink: &mut RecordSink, records: &Vec<RunRecord>) -> (failure: Option<SinkError>)
    requires
        old(sink).wf(),
    ensures
        final(sink).wf(),
        old(sink).records().len() > 0 ==> failure == Some(SinkError::HeaderAlreadyWritten),
        old(sink).records().len() > 0 ==> final(sink).records() == old(sink).records(),
        old(sink).records().len() == 0 ==> failure is None,
        old(sink).records().len() == 0 ==> final(sink).records() == rows_text(records@),
{
    write_records(sink, records)
}

/// What one run of the shuffle benchmark produced: the records, what made
/// the sweep stop early, if anything did, and the CSV text to persist.
#[derive(Debug)]
pub struct BenchmarkOutput {
    pub report: AggregateReport,
    pub csv: Vec<u8>,
}

impl BenchmarkOutput {
    /// The sweep ran to its end.
    pub open spec fn complete(self) -> bool {
        self.report.failure is None
    }

    /// The exit code of the process: 0 for a complete run, 1 for any failure.
    pub fn exit_code(&self) -> (code: i32)
        ensures
            code == if self.complete() {
                0i32
            } else {
                1i32
            },
    {
        if self.report.failure.is_none() {
            0
        } else {
            1
        }
    }
}

/// `output` is what the shuffle benchmark returns for `config`: the report
/// of a sweep in aggregate mode, labelled `seq_shuffle` and `thread_rng`,
/// and the CSV text of the header row and of every record of the report.
pub open spec fn benchmark_output_of(output: BenchmarkOutput, config: BenchmarkConfig) -> bool {
    &&& exists|traces: Seq<Seq<u128>>|
        aggregate_report_of(output.report, config, "seq_shuffle"@, "thread_rng"@, traces)
    &&& output.csv@ == csv_bytes(rows_text(output.report.records@))
}

/// Benchmarks the sequential in-place shuffle: sweeps the input sizes of
/// the configuration in aggregate mode and encodes the records as CSV.
pub fn benchmark_seq_shuffle(config: &BenchmarkConfig) -> (output: BenchmarkOutput)
    ensures
        benchmark_output_of(output, *config),
{
    let mut workload = ShuffleWorkload::new();
    let report = run_aggregate(config, "seq_shuffle", "thread_rng", &mut workload);
    let mut sink = RecordSink::new();
    let _ = write_aggregate(&mut sink, &report.records);
    let csv = sink.into_bytes();
    BenchmarkOutput { report, csv }
}

} // verus!
