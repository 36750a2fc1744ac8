//! Renders an accepted slot as a local date-time string in the
//! `YYYY-MM-DDTHH:MM:SS` format — naive local time, no timezone suffix.

use vstd::prelude::*;
use crate::dates::CalendarDate;

verus! {

pub open spec fn spec_digit_char(d: int) -> char {
    if d == 0 {
        '0'
    } else if d == 1 {
        '1'
    } else if d == 2 {
        '2'
    } else if d == 3 {
        '3'
    } else if d == 4 {
        '4'
    } else if d == 5 {
        '5'
    } else if d == 6 {
        '6'
    } else if d == 7 {
        '7'
    } else if d == 8 {
        '8'
    } else {
        '9'
    }
}

/// A number below 100, zero-padded to two digits.
pub open spec fn spec_two_digits(n: int) -> Seq<char> {
    seq![spec_digit_char(n / 10), spec_digit_char(n % 10)]
}

/// A number below 10000, zero-padded to four digits.
pub open spec fn spec_four_digits(n: int) -> Seq<char> {
    spec_two_digits(n / 100) + spec_two_digits(n % 100)
}

/// The string emitted for the slot starting `s` seconds after midnight of
/// `date`.
pub open spec fn spec_render_slot(date: CalendarDate, s: int) -> Seq<char> {
    spec_four_digits(date.year as int) + seq!['-'] + spec_two_digits(date.month as int)
        + seq!['-'] + spec_two_digits(date.day as int) + seq!['T'] + spec_two_digits(s / 3600)
        + seq![':'] + spec_two_digits((s % 3600) / 60) + seq![':'] + spec_two_digits(s % 60)
}

/// One decimal digit as text.
fn digit_str(d: u32) -> (r: &'static str)
    requires
        d <= 9,
    ensures
        r@ == seq![spec_digit_char(d as int)],
{
    proof {
        reveal_strlit("0");
        reveal_strlit("1");
        reveal_strlit("2");
        reveal_strlit("3");
        reveal_strlit("4");
        reveal_strlit("5");
        reveal_strlit("6");
        reveal_strlit("7");
        reveal_strlit("8");
        reveal_strlit("9");
    }
    let r: &'static str = if d == 0 {
        "0"
    } else if d == 1 {
        "1"
    } else if d == 2 {
        "2"
    } else if d == 3 {
        "3"
    } else if d == 4 {
        "4"
    } else if d == 5 {
        "5"
    } else if d == 6 {
        "6"
    } else if d == 7 {
        "7"
    } else if d == 8 {
        "8"
    } else {
        "9"
    };
    proof {
        assert(r@ =~= seq![spec_digit_char(d as int)]);
    }
    r
}

/// Appends a number below 100 as two zero-padded digits.
fn push_two_digits(out: &mut String, n: u32)
    requires
        n < 100,
    ensures
        final(out)@ == old(out)@ + spec_two_digits(n as int),
{
    let ghost start = out@;
    out.append(digit_str(n / 10));
    out.append(digit_str(n % 10));
    proof {
        assert(out@ =~= start + spec_two_digits(n as int));
    }
}

/// Renders one slot start. The date must be valid and the start a second
/// of the day.
pub fn render_slot(date: &CalendarDate, s: i64) -> (r: String)
    requires
        date.valid(),
        0 <= s < 86400,
    ensures
        r@ == spec_render_slot(*date, s as int),
{
    proof {
        reveal_strlit("-");
        reveal_strlit("T");
        reveal_strlit(":");
    }
    let mut out = String::new();
    push_two_digits(&mut out, date.year / 100);
    push_two_digits(&mut out, date.year % 100);
    out.append("-");
    push_two_digits(&mut out, date.month);
    out.append("-");
    push_two_digits(&mut out, date.day);
    out.append("T");
    let sec_of_day: u64 = s as u64;
    let hour: u32 = (sec_of_day / 3600) as u32;
    let minute: u32 = ((sec_of_day % 3600) / 60) as u32;
    let second: u32 = (sec_of_day % 60) as u32;
    proof {
        assert(hour == s as int / 3600);
        assert(minute == (s as int % 3600) / 60);
        assert(second == s as int % 60);
    }
    push_two_digits(&mut out, hour);
    out.append(":");
    push_two_digits(&mut out, minute);
    out.append(":");
    push_two_digits(&mut out, second);
    proof {
        assert("-"@ =~= seq!['-']);
        assert("T"@ =~= seq!['T']);
        assert(":"@ =~= seq![':']);
        assert(out@ =~= spec_render_slot(*date, s as int));
    }
    out
}

} // verus!
