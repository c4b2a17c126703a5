//! Calendar dates held as plain year, month and day numbers, with the
//! `YYYY-MM-DD` text form the form field and the record store use.

use vstd::prelude::*;
use crate::text::{
    spec_digit_char, is_digit_char, digit_value, digit_char, exec_is_digit_char, exec_digit_value,
};

verus! {

/// A calendar date, no time component.
#[derive(Clone, Copy, PartialEq, Eq, Structural, Debug)]
pub struct Date {
    pub year: u32,
    pub month: u32,
    pub day: u32,
}

pub open spec fn spec_is_leap_year(y: int) -> bool {
    (y % 4 == 0 && y % 100 != 0) || y % 400 == 0
}

pub open spec fn spec_days_in_month(y: int, m: int) -> int {
    if m == 2 {
        if spec_is_leap_year(y) {
            29
        } else {
            28
        }
    } else if m == 4 || m == 6 || m == 9 || m == 11 {
        30
    } else {
        31
    }
}

pub fn is_leap_year(y: u32) -> (b: bool)
    ensures
        b == spec_is_leap_year(y as int),
{
    (y % 4 == 0 && y % 100 != 0) || y % 400 == 0
}

pub fn days_in_month(y: u32, m: u32) -> (d: u32)
    ensures
        d as int == spec_days_in_month(y as int, m as int),
{
    if m == 2 {
        if is_leap_year(y) {
            29
        } else {
            28
        }
    } else if m == 4 || m == 6 || m == 9 || m == 11 {
        30
    } else {
        31
    }
}

impl Date {
    /// A well-formed date: a real day of the proleptic Gregorian calendar
    /// with a four-digit year.
    pub open spec fn wf(self) -> bool {
        self.year <= 9999 && 1 <= self.month <= 12 && 1 <= self.day <= spec_days_in_month(
            self.year as int,
            self.month as int,
        )
    }

    /// A date from its parts, or `None` when they do not name a real day.
    pub fn new(year: u32, month: u32, day: u32) -> (r: Option<Date>)
        ensures
            (Date { year, month, day }).wf() ==> r == Some(Date { year, month, day }),
            !(Date { year, month, day }).wf() ==> r is None,
    {
        if year <= 9999 && 1 <= month && month <= 12 && 1 <= day && day <= days_in_month(
            year,
            month,
        ) {
            Some(Date { year, month, day })
        } else {
            None
        }
    }

    /// Whether the date is a real day with a four-digit year.
    pub fn ok(&self) -> (b: bool)
        ensures
            b == self.wf(),
    {
        self.year <= 9999 && 1 <= self.month && self.month <= 12 && 1 <= self.day && self.day
            <= days_in_month(self.year, self.month)
    }
}

// ---------------------------------------------------------------------------
// The YYYY-MM-DD text form
// ---------------------------------------------------------------------------

/// The ten characters `YYYY-MM-DD` of a date.
pub open spec fn date_chars(d: Date) -> Seq<char> {
    let y = d.year as int;
    let m = d.month as int;
    let dd = d.day as int;
    seq![
        spec_digit_char(y / 1000),
        spec_digit_char((y / 100) % 10),
        spec_digit_char((y / 10) % 10),
        spec_digit_char(y % 10),
        '-',
        spec_digit_char(m / 10),
        spec_digit_char(m % 10),
        '-',
        spec_digit_char(dd / 10),
        spec_digit_char(dd % 10),
    ]
}

/// Render a date as `YYYY-MM-DD`.
pub fn render_date(d: &Date) -> (v: Vec<char>)
    requires
        d.wf(),
    ensures
        v@ == date_chars(*d),
{
    let mut v: Vec<char> = Vec::new();
    v.push(digit_char(d.year / 1000));
    v.push(digit_char((d.year / 100) % 10));
    v.push(digit_char((d.year / 10) % 10));
    v.push(digit_char(d.year % 10));
    v.push('-');
    v.push(digit_char(d.month / 10));
    v.push(digit_char(d.month % 10));
    v.push('-');
    v.push(digit_char(d.day / 10));
    v.push(digit_char(d.day % 10));
    proof {
        assert(v@ =~= date_chars(*d));
    }
    v
}

/// Parse `YYYY-MM-DD`, strictly: ten characters, digits in the digit
/// positions, dashes between, naming a real calendar day.
pub open spec fn parse_date(s: Seq<char>) -> Option<Date> {
    if s.len() == 10 && is_digit_char(s[0]) && is_digit_char(s[1]) && is_digit_char(s[2])
        && is_digit_char(s[3]) && s[4] == '-' && is_digit_char(s[5]) && is_digit_char(s[6]) && s[7]
        == '-' && is_digit_char(s[8]) && is_digit_char(s[9]) {
        let y = digit_value(s[0]) * 1000 + digit_value(s[1]) * 100 + digit_value(s[2]) * 10
            + digit_value(s[3]);
        let m = digit_value(s[5]) * 10 + digit_value(s[6]);
        let dd = digit_value(s[8]) * 10 + digit_value(s[9]);
        let d = Date { year: y as u32, month: m as u32, day: dd as u32 };
        if d.wf() {
            Some(d)
        } else {
            None
        }
    } else {
        None
    }
}

/// Parse a date from characters; `None` unless the text is a well-formed
/// `YYYY-MM-DD` naming a real day.
pub fn parse_date_chars(s: &Vec<char>) -> (r: Option<Date>)
    ensures
        r == parse_date(s@),
{
    if s.len() != 10 {
        return None;
    }
    if !(exec_is_digit_char(s[0]) && exec_is_digit_char(s[1]) && exec_is_digit_char(s[2])
        && exec_is_digit_char(s[3]) && s[4] == '-' && exec_is_digit_char(s[5])
        && exec_is_digit_char(s[6]) && s[7] == '-' && exec_is_digit_char(s[8])
        && exec_is_digit_char(s[9])) {
        return None;
    }
    let y = exec_digit_value(s[0]) * 1000 + exec_digit_value(s[1]) * 100 + exec_digit_value(s[2])
        * 10 + exec_digit_value(s[3]);
    let m = exec_digit_value(s[5]) * 10 + exec_digit_value(s[6]);
    let dd = exec_digit_value(s[8]) * 10 + exec_digit_value(s[9]);
    let d = Date { year: y, month: m, day: dd };
    if d.ok() {
        Some(d)
    } else {
        None
    }
}

// ---------------------------------------------------------------------------
// The current date
// ---------------------------------------------------------------------------

/// Relies on `chrono::Local::now` with `chrono::Datelike`'s `year`, `month`
/// and `day` for the current local date: `month` ranges from 1 to 12 and
/// `day` from 1 to 31.
#[verifier::external_body]
fn now_ymd() -> (r: (i64, u32, u32))
    ensures
        1 <= r.1 <= 12,
        1 <= r.2 <= 31,
{
    let d = chrono::Local::now().date_naive();
    (chrono::Datelike::year(&d) as i64, chrono::Datelike::month(&d), chrono::Datelike::day(&d))
}

/// The current local date, as a well-formed calendar date; days outside the
/// four-digit-year calendar fall back to a fixed well-formed day.
pub fn current_date() -> (d: Date)
    ensures
        d.wf(),
{
    let (y, m, dd) = now_ymd();
    if 0 <= y && y <= 9999 {
        match Date::new(y as u32, m, dd) {
            Some(d) => d,
            None => Date { year: 2000, month: 1, day: 1 },
        }
    } else {
        Date { year: 2000, month: 1, day: 1 }
    }
}

/// Rendering a well-formed date and parsing the text gives the date back.
pub proof fn lemma_parse_render_date(d: Date)
    requires
        d.wf(),
    ensures
        parse_date(date_chars(d)) == Some(d),
{
    let y = d.year as int;
    let m = d.month as int;
    let dd = d.day as int;
    let s = date_chars(d);
    assert(y == (y / 1000) * 1000 + ((y / 100) % 10) * 100 + ((y / 10) % 10) * 10 + y % 10) by {
        assert(y == (y / 1000) * 1000 + y % 1000);
        assert(y % 1000 == ((y / 100) % 10) * 100 + y % 100) by {
            assert((y / 100) % 10 == (y % 1000) / 100) by (nonlinear_arith)
                requires 0 <= y;
            assert(y % 1000 == ((y % 1000) / 100) * 100 + (y % 1000) % 100);
            assert((y % 1000) % 100 == y % 100) by (nonlinear_arith)
                requires 0 <= y;
        };
        assert(y % 100 == ((y / 10) % 10) * 10 + y % 10) by {
            assert((y / 10) % 10 == (y % 100) / 10) by (nonlinear_arith)
                requires 0 <= y;
            assert(y % 100 == ((y % 100) / 10) * 10 + (y % 100) % 10);
            assert((y % 100) % 10 == y % 10) by (nonlinear_arith)
                requires 0 <= y;
        };
    };
    assert(m == (m / 10) * 10 + m % 10);
    assert(dd == (dd / 10) * 10 + dd % 10);
    assert(parse_date(s) == Some(d));
}

} // verus!
