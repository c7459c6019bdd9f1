use shuffle_bench::decimal::{decimal_string, push_decimal, push_digit, push_padded, push_zero_padded, signed_decimal_string};
use shuffle_bench::name::{get_path_string, output_name, CalendarTime};

fn instant() -> CalendarTime {
    CalendarTime { year: 2024, month: 3, day: 5, hour: 7, minute: 8, second: 9 }
}

#[test]
fn name_has_padded_fields_and_parameters() {
    assert_eq!(output_name(&instant(), 4, 256), "20240305-070809-nb=4-th=256-r.csv");
}

#[test]
fn name_with_two_digit_fields() {
    let time = CalendarTime { year: 1999, month: 12, day: 31, hour: 23, minute: 59, second: 59 };
    assert_eq!(output_name(&time, 128, 262144), "19991231-235959-nb=128-th=262144-r.csv");
}

#[test]
fn name_is_the_same_for_the_same_clock_reading() {
    let first = output_name(&instant(), 4, 256);
    let second = output_name(&instant(), 4, 256);
    assert_eq!(first, second);
    assert_ne!(first, output_name(&instant(), 5, 256));
    assert_ne!(first, output_name(&instant(), 4, 257));
    let later = CalendarTime { second: 10, ..instant() };
    assert_ne!(first, output_name(&later, 4, 256));
}

#[test]
fn name_pads_a_short_year_and_keeps_a_long_one() {
    let early = CalendarTime { year: 33, ..instant() };
    assert_eq!(output_name(&early, 1, 1), "00330305-070809-nb=1-th=1-r.csv");
    let zero = CalendarTime { year: 0, ..instant() };
    assert_eq!(output_name(&zero, 1, 1), "00000305-070809-nb=1-th=1-r.csv");
    let far = CalendarTime { year: 12345, ..instant() };
    assert_eq!(output_name(&far, 1, 1), "123450305-070809-nb=1-th=1-r.csv");
}

#[test]
fn name_pads_a_negative_year_in_front_of_its_sign() {
    let before = CalendarTime { year: -5, ..instant() };
    assert_eq!(output_name(&before, 1, 1), format!("{:0>4}0305-070809-nb=1-th=1-r.csv", "-5"));
    assert_eq!(output_name(&before, 1, 1), "00-50305-070809-nb=1-th=1-r.csv");
    let lowest = CalendarTime { year: i32::MIN, ..instant() };
    assert_eq!(output_name(&lowest, 1, 1), "-21474836480305-070809-nb=1-th=1-r.csv");
}

#[test]
fn name_with_the_largest_parameters() {
    let name = output_name(&instant(), usize::MAX, 0);
    assert_eq!(name, format!("20240305-070809-nb={}-th=0-r.csv", usize::MAX));
}

#[test]
fn path_is_the_name_inside_the_output_directory() {
    assert_eq!(
        get_path_string(&instant(), 4, 256),
        "../benchmarks/rust/20240305-070809-nb=4-th=256-r.csv"
    );
}

#[test]
fn path_ends_in_the_name() {
    let time = CalendarTime { year: 2031, month: 11, day: 30, hour: 0, minute: 0, second: 0 };
    let path = get_path_string(&time, 128, 262144);
    let name = output_name(&time, 128, 262144);
    assert_eq!(path, format!("../benchmarks/rust/{}", name));
    assert_eq!(name.len(), "YYYYMMDD-HHMMSS".len() + "-nb=128-th=262144-r.csv".len());
}

#[test]
fn path_is_the_same_for_the_same_clock_reading() {
    assert_eq!(get_path_string(&instant(), 4, 256), get_path_string(&instant(), 4, 256));
}

#[test]
fn decimal_text_of_numbers() {
    assert_eq!(decimal_string(0), "0");
    assert_eq!(decimal_string(7), "7");
    assert_eq!(decimal_string(10), "10");
    assert_eq!(decimal_string(1234567890), "1234567890");
    assert_eq!(decimal_string(u128::MAX), u128::MAX.to_string());
    for n in 0..2000u128 {
        assert_eq!(decimal_string(n), n.to_string());
    }
}

#[test]
fn signed_decimal_text() {
    assert_eq!(signed_decimal_string(0), "0");
    assert_eq!(signed_decimal_string(-1), "-1");
    assert_eq!(signed_decimal_string(2024), "2024");
    assert_eq!(signed_decimal_string(i64::MIN), i64::MIN.to_string());
    assert_eq!(signed_decimal_string(i64::MAX), i64::MAX.to_string());
}

#[test]
fn pushing_appends_to_what_is_there() {
    let mut text = String::from("n=");
    push_decimal(&mut text, 42);
    push_digit(&mut text, 9);
    assert_eq!(text, "n=429");
    push_padded(&mut text, 5, 3);
    assert_eq!(text, "n=429005");
    push_padded(&mut text, 12345, 3);
    assert_eq!(text, "n=42900512345");
    push_padded(&mut text, 0, 0);
    assert_eq!(text, "n=429005123450");
    push_zero_padded(&mut text, "ab", 4);
    assert_eq!(text, "n=42900512345000ab");
    push_zero_padded(&mut text, "", 2);
    assert_eq!(text, "n=42900512345000ab00");
}
