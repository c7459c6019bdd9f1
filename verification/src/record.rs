use crate::decimal::{decimal_digits, decimal_string};
use vstd::prelude::*;

verus! {

/// A record that can be written as one row of CSV text: its fields as text,
/// in the order of the column names of its kind.
pub trait CsvRecord {
    /// The column names.
    spec fn header_text() -> Seq<Seq<char>>;

    /// The fields of the row as text, in the order of the column names.
    spec fn fields_text(&self) -> Seq<Seq<char>>;

    /// The column names, in the order of the fields.
    fn header() -> (names: Vec<String>)
        ensures
            names.deep_view() == Self::header_text(),
    ;

    /// The fields of the row as text, one for every column name and in
    /// their order.
    fn fields(&self) -> (fields: Vec<String>)
        ensures
            fields.deep_view() == self.fields_text(),
            fields.len() == Self::header_text().len(),
    ;
}

/// One row of aggregate mode: the time that `run_count` runs together took
/// on an input of `size` elements, with the parameters of the run.
#[derive(Debug)]
pub struct AggregateRecord {
    pub function_name: String,
    pub prng_name: String,
    pub bucket_count: usize,
    pub base_case_threshold: usize,
    pub min_exponent: usize,
    pub max_exponent: usize,
    pub size: usize,
    pub run_count: usize,
    pub total_duration_ns: u128,
}

/// One row of per-run mode: the time that the run with index `run_index`
/// took on an input of `size` elements.
#[derive(Clone, Copy, Debug, PartialEq, Eq, Structural)]
pub struct RunRecord {
    pub bucket_count: usize,
    pub base_case_threshold: usize,
    pub run_index: usize,
    pub size: usize,
    pub duration_ns: u128,
}

impl CsvRecord for AggregateRecord {
    open spec fn header_text() -> Seq<Seq<char>> {
        seq![
            "function"@,
            "prng"@,
            "buckets"@,
            "threshold"@,
            "min_exp"@,
            "max_exp"@,
            "integers"@,
            "total_runs"@,
            "total_runtime"@,
        ]
    }

    open spec fn fields_text(&self) -> Seq<Seq<char>> {
        seq![
            self.function_name@,
            self.prng_name@,
            decimal_digits(self.bucket_count as nat),
            decimal_digits(self.base_case_threshold as nat),
            decimal_digits(self.min_exponent as nat),
            decimal_digits(self.max_exponent as nat),
            decimal_digits(self.size as nat),
            decimal_digits(self.run_count as nat),
            decimal_digits(self.total_duration_ns as nat),
        ]
    }

    fn header() -> (names: Vec<String>) {
        let mut names: Vec<String> = Vec::new();
        names.push(String::from_str("function"));
        names.push(String::from_str("prng"));
        names.push(String::from_str("buckets"));
        names.push(String::from_str("threshold"));
        names.push(String::from_str("min_exp"));
        names.push(String::from_str("max_exp"));
        names.push(String::from_str("integers"));
        names.push(String::from_str("total_runs"));
        names.push(String::from_str("total_runtime"));
        assert(names.deep_view() =~= Self::header_text());
        names
    }

    fn fields(&self) -> (fields: Vec<String>) {
        let mut fields: Vec<String> = Vec::new();
        fields.push(self.function_name.clone());
        fields.push(self.prng_name.clone());
        fields.push(decimal_string(self.bucket_count as u128));
        fields.push(decimal_string(self.base_case_threshold as u128));
        fields.push(decimal_string(self.min_exponent as u128));
        fields.push(decimal_string(self.max_exponent as u128));
        fields.push(decimal_string(self.size as u128));
        fields.push(decimal_string(self.run_count as u128));
        fields.push(decimal_string(self.total_duration_ns));
        assert(fields.deep_view() =~= self.fields_text());
        fields
    }
}

impl CsvRecord for RunRecord {
    open spec fn header_text() -> Seq<Seq<char>> {
        seq!["buckets"@, "threshold"@, "run"@, "integers"@, "runtime"@]
    }

    open spec fn fields_text(&self) -> Seq<Seq<char>> {
        seq![
            decimal_digits(self.bucket_count as nat),
            decimal_digits(self.base_case_threshold as nat),
            decimal_digits(self.run_index as nat),
            decimal_digits(self.size as nat),
            decimal_digits(self.duration_ns as nat),
        ]
    }

    fn header() -> (names: Vec<String>) {
        let mut names: Vec<String> = Vec::new();
        names.push(String::from_str("buckets"));
        names.push(String::from_str("threshold"));
        names.push(String::from_str("run"));
        names.push(String::from_str("integers"));
        names.push(String::from_str("runtime"));
        assert(names.deep_view() =~= Self::header_text());
        names
    }

    fn fields(&self) -> (fields: Vec<String>) {
        let mut fields: Vec<String> = Vec::new();
        fields.push(decimal_string(self.bucket_count as u128));
        fields.push(decimal_string(self.base_case_threshold as u128));
        fields.push(decimal_string(self.run_index as u128));
        fields.push(decimal_string(self.size as u128));
        fields.push(decimal_string(self.duration_ns));
        assert(fields.deep_view() =~= self.fields_text());
        fields
    }
}

} // verus!
