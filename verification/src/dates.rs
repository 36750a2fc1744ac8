//! Calendar dates: the `YYYY-MM-DD` request format, validity of a civil
//! date, and the weekday it falls on (Monday = 0, the convention every
//! caller of the engine expects).

use vstd::prelude::*;

verus! {

/// A civil calendar date, year 0 through 9999.
#[derive(Clone, Copy, Debug, PartialEq, Eq, Structural)]
pub struct CalendarDate {
    pub year: u32,
    pub month: u32,
    pub day: u32,
}

pub open spec fn is_leap_year(y: int) -> bool {
    y % 4 == 0 && (y % 100 != 0 || y % 400 == 0)
}

pub open spec fn days_in_month_of(y: int, m: int) -> int {
    if m == 2 {
        if is_leap_year(y) {
            29
        } else {
            28
        }
    } else if m == 4 || m == 6 || m == 9 || m == 11 {
        30
    } else {
        31
    }
}

/// A valid date of the proleptic Gregorian calendar within the four-digit
/// year range the request format can spell.
pub open spec fn valid_ymd(y: int, m: int, d: int) -> bool {
    &&& 0 <= y <= 9999
    &&& 1 <= m <= 12
    &&& 1 <= d <= days_in_month_of(y, m)
}

impl CalendarDate {
    pub open spec fn valid(self) -> bool {
        valid_ymd(self.year as int, self.month as int, self.day as int)
    }
}

/// Days elapsed since 0000-03-01, counted with the standard era arithmetic
/// of the Gregorian calendar (years are shifted so that a year runs from
/// March to February, which puts the leap day last).
pub open spec fn spec_day_number(date: CalendarDate) -> int {
    let y: int = date.year as int;
    let m: int = date.month as int;
    let d: int = date.day as int;
    let ys: int = if m <= 2 { y + 399 } else { y + 400 };
    let era: int = ys / 400;
    let yoe: int = ys % 400;
    let mp: int = if m > 2 { m - 3 } else { m + 9 };
    let doy: int = (153 * mp + 2) / 5 + d - 1;
    let doe: int = yoe * 365 + yoe / 4 - yoe / 100 + doy;
    era * 146097 + doe
}

/// Weekday with Monday = 0 .. Sunday = 6. The offset aligns the day count
/// with the fact that 1970-01-01 was a Thursday.
pub open spec fn spec_weekday_from_monday(date: CalendarDate) -> int {
    (spec_day_number(date) + 2) % 7
}

impl CalendarDate {
    /// Weekday of this date, Monday = 0 .. Sunday = 6.
    pub fn weekday_from_monday(&self) -> (w: u32)
        requires
            self.valid(),
        ensures
            w == spec_weekday_from_monday(*self),
            w < 7,
    {
        let y: u64 = self.year as u64;
        let m: u64 = self.month as u64;
        let d: u64 = self.day as u64;
        let ys: u64 = if m <= 2 { y + 399 } else { y + 400 };
        let era: u64 = ys / 400;
        let yoe: u64 = ys % 400;
        let mp: u64 = if m > 2 { m - 3 } else { m + 9 };
        let doy: u64 = (153 * mp + 2) / 5 + d - 1;
        let doe: u64 = yoe * 365 + yoe / 4 - yoe / 100 + doy;
        let day_number: u64 = era * 146097 + doe;
        ((day_number + 2) % 7) as u32
    }

    /// Whether `self` names a real calendar date.
    pub fn is_valid(&self) -> (ok: bool)
        ensures
            ok == self.valid(),
    {
        self.year <= 9999 && 1 <= self.month && self.month <= 12 && 1 <= self.day
            && self.day <= days_in_month(self.year, self.month)
    }
}

/// Length of a month, needed both to validate parsed dates and by callers
/// that page through a calendar.
pub fn days_in_month(year: u32, month: u32) -> (n: u32)
    requires
        1 <= month <= 12,
    ensures
        n == days_in_month_of(year as int, month as int),
{
    if month == 2 {
        if year % 4 == 0 && (year % 100 != 0 || year % 400 == 0) {
            29
        } else {
            28
        }
    } else if month == 4 || month == 6 || month == 9 || month == 11 {
        30
    } else {
        31
    }
}

pub open spec fn is_digit_char(c: char) -> bool {
    '0' <= c && c <= '9'
}

pub open spec fn digit_value(c: char) -> int {
    c as int - 48
}

/// The `YYYY-MM-DD` request grammar: exactly ten characters, digits in the
/// digit positions, hyphens in between, and the three numbers naming a real
/// calendar date.
pub open spec fn is_date_string(s: Seq<char>) -> bool {
    &&& s.len() == 10
    &&& is_digit_char(s[0]) && is_digit_char(s[1]) && is_digit_char(s[2]) && is_digit_char(s[3])
    &&& s[4] == '-'
    &&& is_digit_char(s[5]) && is_digit_char(s[6])
    &&& s[7] == '-'
    &&& is_digit_char(s[8]) && is_digit_char(s[9])
    &&& valid_ymd(spec_year_of(s), spec_month_of(s), spec_day_of(s))
}

pub open spec fn spec_year_of(s: Seq<char>) -> int {
    digit_value(s[0]) * 1000 + digit_value(s[1]) * 100 + digit_value(s[2]) * 10 + digit_value(s[3])
}

pub open spec fn spec_month_of(s: Seq<char>) -> int {
    digit_value(s[5]) * 10 + digit_value(s[6])
}

pub open spec fn spec_day_of(s: Seq<char>) -> int {
    digit_value(s[8]) * 10 + digit_value(s[9])
}

/// The date a well-formed `YYYY-MM-DD` string names.
pub open spec fn spec_parsed_date(s: Seq<char>) -> CalendarDate {
    CalendarDate {
        year: spec_year_of(s) as u32,
        month: spec_month_of(s) as u32,
        day: spec_day_of(s) as u32,
    }
}

/// Reads one digit position of the request string.
fn digit_at(s: &str, i: usize) -> (r: Option<u32>)
    requires
        i < s@.len(),
    ensures
        r is Some <==> is_digit_char(s@[i as int]),
        r is Some ==> r->0 == digit_value(s@[i as int]) && r->0 <= 9,
{
    let c: char = s.get_char(i);
    if '0' <= c && c <= '9' {
        Some(c as u32 - 48)
    } else {
        None
    }
}

/// Parses a request date. Returns the date exactly when the input matches
/// the `YYYY-MM-DD` grammar and names a real calendar date; anything else
/// is rejected.
pub fn parse_data(s: &str) -> (r: Option<CalendarDate>)
    ensures
        r is Some <==> is_date_string(s@),
        r is Some ==> r->0 == spec_parsed_date(s@) && r->0.valid(),
{
    if s.unicode_len() != 10 {
        return None;
    }
    if s.get_char(4) != '-' || s.get_char(7) != '-' {
        return None;
    }
    let y0: u32 = match digit_at(s, 0) { Some(v) => v, None => { return None; } };
    let y1: u32 = match digit_at(s, 1) { Some(v) => v, None => { return None; } };
    let y2: u32 = match digit_at(s, 2) { Some(v) => v, None => { return None; } };
    let y3: u32 = match digit_at(s, 3) { Some(v) => v, None => { return None; } };
    let m0: u32 = match digit_at(s, 5) { Some(v) => v, None => { return None; } };
    let m1: u32 = match digit_at(s, 6) { Some(v) => v, None => { return None; } };
    let d0: u32 = match digit_at(s, 8) { Some(v) => v, None => { return None; } };
    let d1: u32 = match digit_at(s, 9) { Some(v) => v, None => { return None; } };
    let date = CalendarDate {
        year: y0 * 1000 + y1 * 100 + y2 * 10 + y3,
        month: m0 * 10 + m1,
        day: d0 * 10 + d1,
    };
    if date.is_valid() {
        Some(date)
    } else {
        None
    }
}

} // verus!
