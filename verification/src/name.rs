use crate::decimal::{
    all_digits, decimal_digits, lemma_decimal_digits_shape, lemma_digit_count_small, push_decimal,
    push_padded, push_zero_padded, signed_decimal, signed_decimal_string, zero_padded,
};
use vstd::prelude::*;

verus! {

/// A reading of a calendar clock: a date and a time of day.
#[derive(Clone, Copy, Debug, PartialEq, Eq, Structural)]
pub struct CalendarTime {
    pub year: i32,
    pub month: u32,
    pub day: u32,
    pub hour: u32,
    pub minute: u32,
    pub second: u32,
}

impl CalendarTime {
    /// The fields other than the year are in the ranges of a calendar: a
    /// month from 1 to 12, a day from 1 to 31, an hour below 24, and a minute
    /// and a second below 60.
    pub open spec fn in_calendar_ranges(self) -> bool {
        &&& 1 <= self.month <= 12
        &&& 1 <= self.day <= 31
        &&& self.hour <= 23
        &&& self.minute <= 59
        &&& self.second <= 59
    }

    /// The year has at most four digits and no sign.
    pub open spec fn four_digit_year(self) -> bool {
        0 <= self.year <= 9999
    }
}

/// The directory, relative to the working directory, that results are written to.
pub open spec fn output_directory() -> Seq<char> {
    "../benchmarks/rust"@
}

/// The date and the time of day as `YYYYMMDD-HHMMSS`: the year padded with
/// zeros to four characters, every other field to two.
pub open spec fn timestamp_text(time: CalendarTime) -> Seq<char> {
    zero_padded(signed_decimal(time.year as int), 4) + zero_padded(decimal_digits(time.month as nat), 2)
        + zero_padded(decimal_digits(time.day as nat), 2) + "-"@ + zero_padded(
        decimal_digits(time.hour as nat),
        2,
    ) + zero_padded(decimal_digits(time.minute as nat), 2) + zero_padded(
        decimal_digits(time.second as nat),
        2,
    )
}

/// The name of the output of one benchmark run:
/// `YYYYMMDD-HHMMSS-nb=<bucket_count>-th=<threshold>-r.csv`.
pub open spec fn output_name_text(time: CalendarTime, bucket_count: nat, threshold: nat) -> Seq<char> {
    timestamp_text(time) + "-nb="@ + decimal_digits(bucket_count) + "-th="@ + decimal_digits(threshold)
        + "-r.csv"@
}

/// The path of the output of one benchmark run: its name, inside the output directory.
pub open spec fn output_path_text(time: CalendarTime, bucket_count: nat, threshold: nat) -> Seq<char> {
    output_directory() + "/"@ + output_name_text(time, bucket_count, threshold)
}

/// For a calendar reading with a year of at most four digits the timestamp
/// has its fixed shape: eight digits, a hyphen, six digits.
pub proof fn lemma_timestamp_shape(time: CalendarTime)
    requires
        time.in_calendar_ranges(),
        time.four_digit_year(),
    ensures
        timestamp_text(time).len() == 15,
        timestamp_text(time)[8] == '-',
        forall|i: int| 0 <= i < 15 && i != 8 ==> '0' <= #[trigger] timestamp_text(time)[i] <= '9',
{
    let year = zero_padded(signed_decimal(time.year as int), 4);
    let month = zero_padded(decimal_digits(time.month as nat), 2);
    let day = zero_padded(decimal_digits(time.day as nat), 2);
    let hour = zero_padded(decimal_digits(time.hour as nat), 2);
    let minute = zero_padded(decimal_digits(time.minute as nat), 2);
    let second = zero_padded(decimal_digits(time.second as nat), 2);
    lemma_padded_field(time.year as nat, 4);
    lemma_padded_field(time.month as nat, 2);
    lemma_padded_field(time.day as nat, 2);
    lemma_padded_field(time.hour as nat, 2);
    lemma_padded_field(time.minute as nat, 2);
    lemma_padded_field(time.second as nat, 2);
    assert(year.len() == 4 && month.len() == 2 && day.len() == 2);
    assert(hour.len() == 2 && minute.len() == 2 && second.len() == 2);
    let text = timestamp_text(time);
    reveal_strlit("-");
    assert(text.len() == 15);
    assert forall|i: int| 0 <= i < 15 && i != 8 implies '0' <= #[trigger] text[i] <= '9' by {
        if i < 4 {
            assert(text[i] == year[i]);
        } else if i < 6 {
            assert(text[i] == month[i - 4]);
        } else if i < 8 {
            assert(text[i] == day[i - 6]);
        } else if i < 11 {
            assert(text[i] == hour[i - 9]);
        } else if i < 13 {
            assert(text[i] == minute[i - 11]);
        } else {
            assert(text[i] == second[i - 13]);
        }
    }
}

/// A number of at most `width` digits, padded to `width`, is `width` digits.
proof fn lemma_padded_field(n: nat, width: nat)
    requires
        width == 2 && n < 100 || width == 4 && n < 10000,
    ensures
        zero_padded(decimal_digits(n), width).len() == width,
        all_digits(zero_padded(decimal_digits(n), width)),
{
    lemma_decimal_digits_shape(n);
    lemma_digit_count_small(n);
}

/// Formatting is a function of the clock reading and the two parameters:
/// two names made from equal inputs are the same text.
pub proof fn lemma_output_name_repeatable(
    first: String,
    second: String,
    time: CalendarTime,
    bucket_count: usize,
    threshold: usize,
)
    requires
        first@ == output_name_text(time, bucket_count as nat, threshold as nat),
        second@ == output_name_text(time, bucket_count as nat, threshold as nat),
    ensures
        first@ == second@,
{
}

/// Appends the timestamp of a clock reading.
fn push_timestamp(text: &mut String, time: &CalendarTime)
    ensures
        final(text)@ == old(text)@ + timestamp_text(*time),
{
    let ghost before = text@;
    let year = signed_decimal_string(time.year as i64);
    push_zero_padded(text, year.as_str(), 4);
    push_padded(text, time.month as u128, 2);
    push_padded(text, time.day as u128, 2);
    text.append("-");
    push_padded(text, time.hour as u128, 2);
    push_padded(text, time.minute as u128, 2);
    push_padded(text, time.second as u128, 2);
    assert(text@ =~= before + timestamp_text(*time));
}

/// Appends the output name for a clock reading and the two parameters.
fn push_output_name(text: &mut String, time: &CalendarTime, bucket_count: usize, threshold: usize)
    ensures
        final(text)@ == old(text)@ + output_name_text(*time, bucket_count as nat, threshold as nat),
{
    let ghost before = text@;
    push_timestamp(text, time);
    text.append("-nb=");
    push_decimal(text, bucket_count as u128);
    text.append("-th=");
    push_decimal(text, threshold as u128);
    text.append("-r.csv");
    assert(text@ =~= before + output_name_text(*time, bucket_count as nat, threshold as nat));
}

/// The name of the output of a benchmark run that started at `time`.
pub fn output_name(time: &CalendarTime, bucket_count: usize, threshold: usize) -> (name: String)
    ensures
        name@ == output_name_text(*time, bucket_count as nat, threshold as nat),
{
    let mut name = String::new();
    push_output_name(&mut name, time, bucket_count, threshold);
    assert(name@ =~= output_name_text(*time, bucket_count as nat, threshold as nat));
    name
}

/// The path of the output of a benchmark run that started at `now`: its
/// name, inside the output directory.
pub fn get_path_string(now: &CalendarTime, num_buckets: usize, threshold: usize) -> (path: String)
    ensures
        path@ == output_path_text(*now, num_buckets as nat, threshold as nat),
{
    let mut path = String::new();
    path.append("../benchmarks/rust");
    assert(path@ =~= output_directory());
    path.append("/");
    push_output_name(&mut path, now, num_buckets, threshold);
    assert(path@ =~= output_path_text(*now, num_buckets as nat, threshold as nat));
    path
}

} // verus!
