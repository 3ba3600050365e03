use log_explorer::aggregate::{build_params, SourceQuery, RECORD_LIMIT};
use log_explorer::window::{
    compute, format_datetime, next_day, parse_date, u64_to_string, Date, WindowError, ANCHOR_HOUR,
};

#[test]
fn parse_valid_date() {
    assert_eq!(parse_date("2024-03-01"), Some(Date { year: 2024, month: 3, day: 1 }));
    assert_eq!(parse_date("0001-01-01"), Some(Date { year: 1, month: 1, day: 1 }));
    assert_eq!(parse_date("9999-12-31"), Some(Date { year: 9999, month: 12, day: 31 }));
}

#[test]
fn parse_rejects_malformed_strings() {
    assert_eq!(parse_date(""), None);
    assert_eq!(parse_date("2024-3-1"), None);
    assert_eq!(parse_date("20240301"), None);
    assert_eq!(parse_date("2024-03-01x"), None);
    assert_eq!(parse_date("abcd-ef-gh"), None);
    assert_eq!(parse_date("2024/03/01"), None);
    assert_eq!(parse_date("2024-03-0 "), None);
}

#[test]
fn parse_rejects_impossible_dates() {
    assert_eq!(parse_date("2024-13-01"), None);
    assert_eq!(parse_date("2024-00-10"), None);
    assert_eq!(parse_date("2024-01-32"), None);
    assert_eq!(parse_date("2024-01-00"), None);
    assert_eq!(parse_date("2024-04-31"), None);
}

#[test]
fn parse_applies_leap_year_rule() {
    assert_eq!(parse_date("2024-02-29"), Some(Date { year: 2024, month: 2, day: 29 }));
    assert_eq!(parse_date("2000-02-29"), Some(Date { year: 2000, month: 2, day: 29 }));
    assert_eq!(parse_date("2023-02-29"), None);
    assert_eq!(parse_date("2100-02-29"), None);
}

#[test]
fn window_spans_exactly_one_day_at_noon() {
    let w = compute("2024-03-01").unwrap();
    assert_eq!(w.start.hour, ANCHOR_HOUR);
    assert_eq!(format_datetime(&w.start), "2024-03-01T12:00:00");
    assert_eq!(format_datetime(&w.end), "2024-03-02T12:00:00");
}

#[test]
fn window_rolls_over_month_and_year() {
    let w = compute("2024-01-31").unwrap();
    assert_eq!(format_datetime(&w.end), "2024-02-01T12:00:00");
    let w = compute("2023-12-31").unwrap();
    assert_eq!(format_datetime(&w.end), "2024-01-01T12:00:00");
    let w = compute("2024-02-29").unwrap();
    assert_eq!(format_datetime(&w.end), "2024-03-01T12:00:00");
}

#[test]
fn window_fails_on_invalid_date() {
    assert_eq!(compute("not a date"), Err(WindowError::InvalidDateFormat));
    assert_eq!(compute("2023-02-29"), Err(WindowError::InvalidDateFormat));
    assert_eq!(compute("9999-12-31"), Err(WindowError::InvalidDateFormat));
}

#[test]
fn next_day_steps_through_the_calendar() {
    assert_eq!(
        next_day(Date { year: 2024, month: 2, day: 28 }),
        Date { year: 2024, month: 2, day: 29 }
    );
    assert_eq!(
        next_day(Date { year: 2023, month: 2, day: 28 }),
        Date { year: 2023, month: 3, day: 1 }
    );
    assert_eq!(
        next_day(Date { year: 2024, month: 4, day: 30 }),
        Date { year: 2024, month: 5, day: 1 }
    );
}

#[test]
fn decimal_serialization_is_exact() {
    assert_eq!(u64_to_string(0), "0");
    assert_eq!(u64_to_string(7), "7");
    assert_eq!(u64_to_string(10000), "10000");
    assert_eq!(u64_to_string(18446744073709551615), "18446744073709551615");
}

#[test]
fn request_params_carry_window_and_limit() {
    let w = compute("2024-03-01").unwrap();
    let q = SourceQuery { window: w, limit: RECORD_LIMIT };
    let params = build_params(&q);
    assert_eq!(params.len(), 3);
    assert_eq!(params[0].0, "min_date_added");
    assert_eq!(params[0].1, "2024-03-01T12:00:00");
    assert_eq!(params[1].0, "max_date_added");
    assert_eq!(params[1].1, "2024-03-02T12:00:00");
    assert_eq!(params[2].0, "limit");
    assert_eq!(params[2].1, "10000");
}
