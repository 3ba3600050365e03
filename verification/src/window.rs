//! Calendar dates and the 24-hour observing window.
//!
//! A requested date (a `YYYY-MM-DD` string) is anchored at a fixed canonical
//! time of day — noon — and the window runs from that instant to noon of the
//! next day, a half-open interval exactly 24 hours long. Anchoring at noon
//! avoids the ambiguities that midnight anchors suffer near day boundaries.

use vstd::prelude::*;

verus! {

/// The canonical time of day at which every window starts and ends.
pub const ANCHOR_HOUR: u32 = 12;

/// A calendar date in the proleptic Gregorian calendar.
#[derive(Clone, Copy, PartialEq, Eq, Structural, Debug)]
pub struct Date {
    pub year: u32,
    pub month: u32,
    pub day: u32,
}

/// An instant: a calendar date with a time of day.
#[derive(Clone, Copy, PartialEq, Eq, Structural, Debug)]
pub struct DateTime {
    pub date: Date,
    pub hour: u32,
    pub minute: u32,
    pub second: u32,
}

/// Gregorian leap-year rule.
pub open spec fn is_leap_year(y: int) -> bool {
    (y % 4 == 0 && y % 100 != 0) || y % 400 == 0
}

/// Number of days in a month of a given year.
pub open spec fn spec_days_in_month(y: int, m: int) -> int {
    if m == 2 {
        if is_leap_year(y) {
            29
        } else {
            28
        }
    } else if m == 4 || m == 6 || m == 9 || m == 11 {
        30
    } else {
        31
    }
}

/// A well-formed date: the year fits in four digits and the day exists in
/// its month.
pub open spec fn date_wf(d: Date) -> bool {
    &&& d.year <= 9999
    &&& 1 <= d.month <= 12
    &&& 1 <= d.day <= spec_days_in_month(d.year as int, d.month as int)
}

/// A well-formed instant: a well-formed date with an in-range time of day.
pub open spec fn datetime_wf(dt: DateTime) -> bool {
    &&& date_wf(dt.date)
    &&& dt.hour < 24
    &&& dt.minute < 60
    &&& dt.second < 60
}

/// Days in all years before year `y` (year 0 is day 0).
pub open spec fn days_before_year(y: int) -> int
    decreases y,
{
    if y <= 0 {
        0
    } else {
        days_before_year(y - 1) + if is_leap_year(y - 1) {
            366int
        } else {
            365int
        }
    }
}

/// Days in all months of year `y` before month `m`.
pub open spec fn days_before_month(y: int, m: int) -> int
    decreases m,
{
    if m <= 1 {
        0
    } else {
        days_before_month(y, m - 1) + spec_days_in_month(y, m - 1)
    }
}

/// The rank of a date in the calendar: the number of days before it.
pub open spec fn day_number(d: Date) -> int {
    days_before_year(d.year as int) + days_before_month(d.year as int, d.month as int) + d.day - 1
}

/// The rank of an instant, in seconds.
pub open spec fn instant_seconds(dt: DateTime) -> int {
    day_number(dt.date) * 86400 + dt.hour * 3600 + dt.minute * 60 + dt.second
}

/// The calendar successor of a date.
pub open spec fn spec_next_day(d: Date) -> Date {
    if d.day < spec_days_in_month(d.year as int, d.month as int) {
        Date { year: d.year, month: d.month, day: (d.day + 1) as u32 }
    } else if d.month < 12 {
        Date { year: d.year, month: (d.month + 1) as u32, day: 1 }
    } else {
        Date { year: (d.year + 1) as u32, month: 1, day: 1 }
    }
}

/// Number of days in a month of a given year.
pub fn days_in_month(year: u32, month: u32) -> (n: u32)
    requires
        1 <= month <= 12,
    ensures
        n == spec_days_in_month(year as int, month as int),
{
    if month == 2 {
        if (year % 4 == 0 && year % 100 != 0) || year % 400 == 0 {
            29
        } else {
            28
        }
    } else if month == 4 || month == 6 || month == 9 || month == 11 {
        30
    } else {
        31
    }
}

/// The calendar successor of a date.
pub fn next_day(d: Date) -> (r: Date)
    requires
        date_wf(d),
        d.year < 9999 || d.month < 12 || d.day < 31,
    ensures
        r == spec_next_day(d),
        date_wf(r),
{
    let dim = days_in_month(d.year, d.month);
    if d.day < dim {
        Date { year: d.year, month: d.month, day: d.day + 1 }
    } else if d.month < 12 {
        Date { year: d.year, month: d.month + 1, day: 1 }
    } else {
        Date { year: d.year + 1, month: 1, day: 1 }
    }
}

/// A whole year has 365 days, or 366 in a leap year.
proof fn lemma_days_in_year(y: int)
    ensures
        days_before_month(y, 13) == if is_leap_year(y) {
            366int
        } else {
            365int
        },
{
    reveal_with_fuel(days_before_month, 13);
}

/// The calendar successor of a date ranks exactly one day after it.
pub proof fn lemma_next_day_number(d: Date)
    requires
        date_wf(d),
    ensures
        day_number(spec_next_day(d)) == day_number(d) + 1,
{
    let y = d.year as int;
    let m = d.month as int;
    if d.day < spec_days_in_month(y, m) {
    } else if d.month < 12 {
        assert(days_before_month(y, m + 1) == days_before_month(y, m) + spec_days_in_month(y, m));
    } else {
        lemma_days_in_year(y);
        assert(days_before_year(y + 1) == days_before_year(y) + if is_leap_year(y) {
            366int
        } else {
            365int
        });
        assert(days_before_month(y, 13) == days_before_month(y, 12) + spec_days_in_month(y, 12));
    }
}

/// The 24-hour observing window, a half-open interval `[start, end)`.
#[derive(Clone, Copy, PartialEq, Eq, Structural, Debug)]
pub struct TimeWindow {
    pub start: DateTime,
    pub end: DateTime,
}

/// A well-formed window: both bounds sit at the canonical anchor time and the
/// end falls on the calendar successor of the start.
pub open spec fn window_wf(w: TimeWindow) -> bool {
    &&& datetime_wf(w.start)
    &&& datetime_wf(w.end)
    &&& w.start.hour == ANCHOR_HOUR && w.start.minute == 0 && w.start.second == 0
    &&& w.end.hour == ANCHOR_HOUR && w.end.minute == 0 && w.end.second == 0
    &&& w.end.date == spec_next_day(w.start.date)
}

/// A well-formed window spans exactly 24 hours.
pub proof fn lemma_window_duration(w: TimeWindow)
    requires
        window_wf(w),
    ensures
        instant_seconds(w.end) == instant_seconds(w.start) + 86400,
{
    lemma_next_day_number(w.start.date);
}

/// A decimal digit.
pub open spec fn is_digit(c: char) -> bool {
    48 <= c as int <= 57
}

/// The value of a decimal digit.
pub open spec fn digit_val(c: char) -> int {
    c as int - 48
}

/// The character for a decimal digit value.
pub open spec fn digit_char(v: int) -> char {
    if v == 0 {
        '0'
    } else if v == 1 {
        '1'
    } else if v == 2 {
        '2'
    } else if v == 3 {
        '3'
    } else if v == 4 {
        '4'
    } else if v == 5 {
        '5'
    } else if v == 6 {
        '6'
    } else if v == 7 {
        '7'
    } else if v == 8 {
        '8'
    } else {
        '9'
    }
}

/// What parsing a `YYYY-MM-DD` string yields: the date it denotes, or
/// nothing when the shape is wrong or the day does not exist.
pub open spec fn spec_parse_date(s: Seq<char>) -> Option<Date> {
    if s.len() == 10 && s[4] == '-' && s[7] == '-' && is_digit(s[0]) && is_digit(s[1]) && is_digit(
        s[2],
    ) && is_digit(s[3]) && is_digit(s[5]) && is_digit(s[6]) && is_digit(s[8]) && is_digit(s[9]) {
        let y = digit_val(s[0]) * 1000 + digit_val(s[1]) * 100 + digit_val(s[2]) * 10 + digit_val(
            s[3],
        );
        let m = digit_val(s[5]) * 10 + digit_val(s[6]);
        let d = digit_val(s[8]) * 10 + digit_val(s[9]);
        if 1 <= m <= 12 && 1 <= d <= spec_days_in_month(y, m) {
            Some(Date { year: y as u32, month: m as u32, day: d as u32 })
        } else {
            None
        }
    } else {
        None
    }
}

/// Reads one digit of a date string.
fn read_digit(s: &str, i: usize) -> (r: Option<u32>)
    requires
        i < s@.len(),
    ensures
        r is Some <==> is_digit(s@[i as int]),
        r is Some ==> r->0 == digit_val(s@[i as int]),
{
    let c = s.get_char(i);
    let v = c as u32;
    if 48 <= v && v <= 57 {
        Some(v - 48)
    } else {
        None
    }
}

/// Parses a `YYYY-MM-DD` string into the date it denotes.
pub fn parse_date(s: &str) -> (r: Option<Date>)
    ensures
        r == spec_parse_date(s@),
        r is Some ==> date_wf(r->0),
{
    if s.unicode_len() != 10 {
        return None;
    }
    if s.get_char(4) != '-' || s.get_char(7) != '-' {
        return None;
    }
    let d0 = read_digit(s, 0);
    let d1 = read_digit(s, 1);
    let d2 = read_digit(s, 2);
    let d3 = read_digit(s, 3);
    let d5 = read_digit(s, 5);
    let d6 = read_digit(s, 6);
    let d8 = read_digit(s, 8);
    let d9 = read_digit(s, 9);
    match (d0, d1, d2, d3, d5, d6, d8, d9) {
        (
            Some(y0),
            Some(y1),
            Some(y2),
            Some(y3),
            Some(m0),
            Some(m1),
            Some(a0),
            Some(a1),
        ) => {
            let y = y0 * 1000 + y1 * 100 + y2 * 10 + y3;
            let m = m0 * 10 + m1;
            let d = a0 * 10 + a1;
            if 1 <= m && m <= 12 && 1 <= d && d <= days_in_month(y, m) {
                Some(Date { year: y, month: m, day: d })
            } else {
                None
            }
        },
        _ => None,
    }
}

/// Two decimal digits, zero-padded.
pub open spec fn spec_format_2(v: int) -> Seq<char> {
    seq![digit_char(v / 10), digit_char(v % 10)]
}

/// Four decimal digits, zero-padded.
pub open spec fn spec_format_4(v: int) -> Seq<char> {
    seq![
        digit_char(v / 1000),
        digit_char((v / 100) % 10),
        digit_char((v / 10) % 10),
        digit_char(v % 10),
    ]
}

/// The canonical, lexicographically sortable serialization of an instant:
/// `YYYY-MM-DDTHH:MM:SS`.
pub open spec fn spec_format_datetime(dt: DateTime) -> Seq<char> {
    spec_format_4(dt.date.year as int) + seq!['-'] + spec_format_2(dt.date.month as int)
        + seq!['-'] + spec_format_2(dt.date.day as int) + seq!['T'] + spec_format_2(dt.hour as int)
        + seq![':'] + spec_format_2(dt.minute as int) + seq![':'] + spec_format_2(dt.second as int)
}

/// The one-character string for a decimal digit value.
fn digit_str(v: u32) -> (r: &'static str)
    requires
        v < 10,
    ensures
        r@ =~= seq![digit_char(v as int)],
{
    proof {
        reveal_strlit("0");
        reveal_strlit("1");
        reveal_strlit("2");
        reveal_strlit("3");
        reveal_strlit("4");
        reveal_strlit("5");
        reveal_strlit("6");
        reveal_strlit("7");
        reveal_strlit("8");
        reveal_strlit("9");
    }
    match v {
        0 => "0",
        1 => "1",
        2 => "2",
        3 => "3",
        4 => "4",
        5 => "5",
        6 => "6",
        7 => "7",
        8 => "8",
        _ => "9",
    }
}

/// Appends a value below 100 as two zero-padded digits.
fn append_2(out: &mut String, v: u32)
    requires
        v < 100,
    ensures
        final(out)@ == old(out)@ + spec_format_2(v as int),
{
    out.append(digit_str(v / 10));
    out.append(digit_str(v % 10));
}

/// Serializes an instant in the canonical `YYYY-MM-DDTHH:MM:SS` form.
pub fn format_datetime(dt: &DateTime) -> (r: String)
    requires
        datetime_wf(*dt),
    ensures
        r@ == spec_format_datetime(*dt),
{
    proof {
        reveal_strlit("-");
        reveal_strlit("T");
        reveal_strlit(":");
    }
    let mut out = String::new();
    out.append(digit_str(dt.date.year / 1000));
    out.append(digit_str((dt.date.year / 100) % 10));
    out.append(digit_str((dt.date.year / 10) % 10));
    out.append(digit_str(dt.date.year % 10));
    out.append("-");
    append_2(&mut out, dt.date.month);
    out.append("-");
    append_2(&mut out, dt.date.day);
    out.append("T");
    append_2(&mut out, dt.hour);
    out.append(":");
    append_2(&mut out, dt.minute);
    out.append(":");
    append_2(&mut out, dt.second);
    proof {
        assert(out@ =~= spec_format_datetime(*dt));
    }
    out
}

/// The decimal digits of a non-negative number, most significant first.
pub open spec fn spec_decimal(n: int) -> Seq<char>
    decreases n,
{
    if n < 10 {
        seq![digit_char(n)]
    } else {
        spec_decimal(n / 10).push(digit_char(n % 10))
    }
}

/// Serializes a number in decimal.
pub fn u64_to_string(n: u64) -> (r: String)
    ensures
        r@ == spec_decimal(n as int),
    decreases n,
{
    if n < 10 {
        String::from_str(digit_str(n as u32))
    } else {
        let mut s = u64_to_string(n / 10);
        s.append(digit_str((n % 10) as u32));
        proof {
            assert(s@ =~= spec_decimal(n as int));
        }
        s
    }
}

/// Why no window could be computed.
#[derive(Clone, Copy, PartialEq, Eq, Structural, Debug)]
pub enum WindowError {
    /// The requested date is not a valid `YYYY-MM-DD` calendar date.
    InvalidDateFormat,
}

/// The window a date string denotes: noon of that date to noon of the next
/// day. Nothing when the string does not parse, or when the date is the very
/// last representable one, whose successor has no four-digit year.
pub open spec fn spec_compute(s: Seq<char>) -> Option<TimeWindow> {
    match spec_parse_date(s) {
        Some(d) => {
            if d.year == 9999 && d.month == 12 && d.day == 31 {
                None
            } else {
                Some(
                    TimeWindow {
                        start: DateTime { date: d, hour: ANCHOR_HOUR, minute: 0, second: 0 },
                        end: DateTime {
                            date: spec_next_day(d),
                            hour: ANCHOR_HOUR,
                            minute: 0,
                            second: 0,
                        },
                    },
                )
            }
        },
        None => None,
    }
}

/// Every window a date string denotes is well-formed, starts at the
/// canonical anchor time of the date the string names, and ends exactly 24
/// hours later.
pub proof fn lemma_compute_duration(s: Seq<char>, w: TimeWindow)
    requires
        spec_compute(s) == Some(w),
    ensures
        window_wf(w),
        w.start.hour == ANCHOR_HOUR && w.start.minute == 0 && w.start.second == 0,
        spec_parse_date(s) == Some(w.start.date),
        instant_seconds(w.end) == instant_seconds(w.start) + 86400,
{
    lemma_window_duration(w);
}

/// Turns a requested `YYYY-MM-DD` date into the 24-hour observing window
/// anchored at the canonical time of day.
pub fn compute(date_str: &str) -> (r: Result<TimeWindow, WindowError>)
    ensures
        match r {
            Ok(w) => spec_compute(date_str@) == Some(w) && window_wf(w),
            Err(e) => spec_compute(date_str@) is None && e == WindowError::InvalidDateFormat,
        },
{
    match parse_date(date_str) {
        Some(d) => {
            if d.year == 9999 && d.month == 12 && d.day == 31 {
                Err(WindowError::InvalidDateFormat)
            } else {
                let start = DateTime { date: d, hour: ANCHOR_HOUR, minute: 0, second: 0 };
                let end = DateTime { date: next_day(d), hour: ANCHOR_HOUR, minute: 0, second: 0 };
                Ok(TimeWindow { start, end })
            }
        },
        None => Err(WindowError::InvalidDateFormat),
    }
}

} // verus!
