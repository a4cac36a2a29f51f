use nordea2ynab::filename::parse_file_name;
use nordea2ynab::DateTime;

fn dt(year: u32, month: u32, day: u32, hour: u32, minute: u32, second: u32) -> DateTime {
    DateTime { year, month, day, hour, minute, second }
}

#[test]
fn long_timestamp_format_parses() {
    let r = parse_file_name("Tapahtumat FI12 3456 7890 1234 56 - 2023-10-01 12.30.45.csv");
    let (iban, stamp) = r.expect("name should parse");
    assert_eq!(iban, "FI12 3456 7890 1234 56");
    assert_eq!(stamp, dt(2023, 10, 1, 12, 30, 45));
}

#[test]
fn short_timestamp_format_parses() {
    let r = parse_file_name("Tapahtumat FI12 3456 7890 1234 56 - 2023.10.01 12.30.csv");
    let (iban, stamp) = r.expect("name should parse");
    assert_eq!(iban, "FI12 3456 7890 1234 56");
    assert_eq!(stamp, dt(2023, 10, 1, 12, 30, 0));
}

#[test]
fn equal_moments_in_both_formats_agree() {
    // The same minute written in either format yields the same timestamp,
    // so selection cannot depend on the naming convention.
    let long = parse_file_name("a FI12 3456 7890 1234 56 - 2023-10-01 12.30.00.csv").unwrap().1;
    let short = parse_file_name("b FI12 3456 7890 1234 56 - 2023.10.01 12.30.csv").unwrap().1;
    assert_eq!(long, short);
    assert_eq!(long.key(), short.key());
}

#[test]
fn name_without_prefix_is_rejected() {
    assert!(parse_file_name("FI12 3456 7890 1234 56 - 2023.10.01 12.30.csv").is_none());
}

#[test]
fn wrong_extension_is_rejected() {
    assert!(parse_file_name("Tapahtumat FI12 3456 7890 1234 56 - 2023.10.01 12.30.txt").is_none());
}

#[test]
fn unrelated_names_are_rejected()  {
    assert!(parse_file_name("notes.txt").is_none());
    assert!(parse_file_name("summary.csv").is_none());
    assert!(parse_file_name("").is_none());
}

#[test]
fn impossible_calendar_dates_are_rejected() {
    assert!(parse_file_name("a FI12 3456 7890 1234 56 - 2023.02.30 12.30.csv").is_none());
    assert!(parse_file_name("a FI12 3456 7890 1234 56 - 2023-13-01 12.30.45.csv").is_none());
    assert!(parse_file_name("a FI12 3456 7890 1234 56 - 2023-02-29 12.30.45.csv").is_none());
}

#[test]
fn leap_day_parses_in_leap_years() {
    let r = parse_file_name("a FI12 3456 7890 1234 56 - 2024-02-29 00.00.00.csv");
    assert_eq!(r.unwrap().1, dt(2024, 2, 29, 0, 0, 0));
}

#[test]
fn malformed_account_ids_are_rejected() {
    assert!(parse_file_name("a FI12 3456 7890 1234 5X - 2023.10.01 12.30.csv").is_none());
    assert!(parse_file_name("a XY12 3456 7890 1234 56 - 2023.10.01 12.30.csv").is_none());
}

#[test]
fn ordering_key_follows_time() {
    let earlier = dt(2023, 10, 1, 12, 30, 45);
    let later_same_day = dt(2023, 10, 1, 12, 31, 0);
    let later_year = dt(2024, 1, 1, 0, 0, 0);
    assert!(earlier.key() < later_same_day.key());
    assert!(later_same_day.key() < later_year.key());
}
