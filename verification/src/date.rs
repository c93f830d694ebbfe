//! Calendar dates as plain year, month and day fields, with the
//! `DD.MM.YYYY` text form used both on screen and in storage.

use vstd::prelude::*;
use crate::text::{digit_char, digit_val, digit_str, is_digit_char};

verus! {

/// A proleptic Gregorian calendar date, no time of day.
///
/// Years are limited to `0 ..= 9999` so that every date has a four-digit
/// year in its `DD.MM.YYYY` text form.
#[derive(Debug, Clone, Copy, PartialEq, Eq, Structural, Hash)]
pub struct Date {
    pub year: i32,
    pub month: u8,
    pub day: u8,
}

pub open spec fn is_leap_year(y: int) -> bool {
    y % 4 == 0 && (y % 100 != 0 || y % 400 == 0)
}

pub open spec fn days_in_month(y: int, m: int) -> int {
    if m == 2 {
        if is_leap_year(y) {
            29
        } else {
            28
        }
    } else if m == 4 || m == 6 || m == 9 || m == 11 {
        30
    } else {
        31
    }
}

impl Date {
    /// A well-formed date: the day exists in that month of that year.
    pub open spec fn wf(self) -> bool {
        &&& 0 <= self.year <= 9999
        &&& 1 <= self.month <= 12
        &&& 1 <= self.day <= days_in_month(self.year as int, self.month as int)
    }

    /// The date for the given fields, or `None` when no such day exists.
    pub fn new(year: i32, month: u8, day: u8) -> (r: Option<Date>)
        ensures
            r is Some <==> (Date { year, month, day }).wf(),
            r is Some ==> r == Some(Date { year, month, day }),
    {
        if 0 <= year && year <= 9999 && 1 <= month && month <= 12 && 1 <= day
            && (day as i32) <= days_in_month_exec(year, month) {
            Some(Date { year, month, day })
        } else {
            None
        }
    }

    /// Ordering by year, then month, then day.
    pub open spec fn spec_le(self, other: Date) -> bool {
        if self.year != other.year {
            self.year < other.year
        } else if self.month != other.month {
            self.month < other.month
        } else {
            self.day <= other.day
        }
    }

    pub open spec fn spec_lt(self, other: Date) -> bool {
        self.spec_le(other) && self != other
    }

    /// Whether `self` is on or before `other`.
    pub fn le(&self, other: &Date) -> (r: bool)
        ensures
            r == self.spec_le(*other),
    {
        if self.year != other.year {
            self.year < other.year
        } else if self.month != other.month {
            self.month < other.month
        } else {
            self.day <= other.day
        }
    }

    /// Whether `self` is strictly before `other`.
    pub fn lt(&self, other: &Date) -> (r: bool)
        ensures
            r == self.spec_lt(*other),
    {
        if self.year != other.year {
            self.year < other.year
        } else if self.month != other.month {
            self.month < other.month
        } else {
            self.day < other.day
        }
    }
}

/// The order is total: two dates that precede each other are equal.
pub proof fn lemma_date_order_total(a: Date, b: Date)
    ensures
        a.spec_le(b) || b.spec_le(a),
        a.spec_le(b) && b.spec_le(a) ==> a == b,
{
}

fn days_in_month_exec(year: i32, month: u8) -> (r: i32)
    requires
        1 <= month <= 12,
    ensures
        r == days_in_month(year as int, month as int),
{
    if month == 2 {
        if year % 4 == 0 && (year % 100 != 0 || year % 400 == 0) {
            29
        } else {
            28
        }
    } else if month == 4 || month == 6 || month == 9 || month == 11 {
        30
    } else {
        31
    }
}

/// The `DD.MM.YYYY` text of a date: day and month zero-padded to two
/// digits, year to four.
pub open spec fn date_text(d: Date) -> Seq<char> {
    seq![
        digit_char(d.day as int / 10),
        digit_char(d.day as int % 10),
        '.',
        digit_char(d.month as int / 10),
        digit_char(d.month as int % 10),
        '.',
        digit_char(d.year as int / 1000),
        digit_char(d.year as int / 100 % 10),
        digit_char(d.year as int / 10 % 10),
        digit_char(d.year as int % 10),
    ]
}

/// Formats `d` as `DD.MM.YYYY`.
pub fn format_date(d: &Date) -> (r: String)
    requires
        d.wf(),
    ensures
        r@ == date_text(*d),
{
    proof {
        reveal_strlit(".");
    }
    let mut s = String::new();
    s.append(digit_str((d.day / 10) as u64));
    s.append(digit_str((d.day % 10) as u64));
    s.append(".");
    s.append(digit_str((d.month / 10) as u64));
    s.append(digit_str((d.month % 10) as u64));
    s.append(".");
    s.append(digit_str((d.year / 1000) as u64));
    s.append(digit_str((d.year / 100 % 10) as u64));
    s.append(digit_str((d.year / 10 % 10) as u64));
    s.append(digit_str((d.year % 10) as u64));
    proof {
        assert(s@ =~= date_text(*d));
    }
    s
}

/// What parsing a date text yields: `Some` exactly for a ten-character
/// `DD.MM.YYYY` string naming a well-formed date.
pub open spec fn spec_parse_date(s: Seq<char>) -> Option<Date> {
    if s.len() == 10 && s[2] == '.' && s[5] == '.' && is_digit_char(s[0]) && is_digit_char(s[1])
        && is_digit_char(s[3]) && is_digit_char(s[4]) && is_digit_char(s[6]) && is_digit_char(s[7])
        && is_digit_char(s[8]) && is_digit_char(s[9]) {
        let day = digit_val(s[0]) * 10 + digit_val(s[1]);
        let month = digit_val(s[3]) * 10 + digit_val(s[4]);
        let year = digit_val(s[6]) * 1000 + digit_val(s[7]) * 100 + digit_val(s[8]) * 10
            + digit_val(s[9]);
        let d = Date { year: year as i32, month: month as u8, day: day as u8 };
        if d.wf() {
            Some(d)
        } else {
            None
        }
    } else {
        None
    }
}

/// Reads one digit character at position `i`.
fn read_digit(s: &str, i: usize) -> (r: Option<u32>)
    requires
        i < s@.len(),
    ensures
        r is Some <==> is_digit_char(s@[i as int]),
        r is Some ==> r == Some(digit_val(s@[i as int]) as u32),
{
    let c = s.get_char(i);
    if '0' <= c && c <= '9' {
        Some(c as u32 - '0' as u32)
    } else {
        None
    }
}

/// Parses a `DD.MM.YYYY` date.
pub fn parse_date(s: &str) -> (r: Option<Date>)
    ensures
        r == spec_parse_date(s@),
{
    if s.unicode_len() != 10 {
        return None;
    }
    if s.get_char(2) != '.' || s.get_char(5) != '.' {
        return None;
    }
    let d0 = read_digit(s, 0);
    let d1 = read_digit(s, 1);
    let m0 = read_digit(s, 3);
    let m1 = read_digit(s, 4);
    let y0 = read_digit(s, 6);
    let y1 = read_digit(s, 7);
    let y2 = read_digit(s, 8);
    let y3 = read_digit(s, 9);
    match (d0, d1, m0, m1, y0, y1, y2, y3) {
        (Some(d0), Some(d1), Some(m0), Some(m1), Some(y0), Some(y1), Some(y2), Some(y3)) => {
            let day = d0 * 10 + d1;
            let month = m0 * 10 + m1;
            let year = y0 * 1000 + y1 * 100 + y2 * 10 + y3;
            Date::new(year as i32, month as u8, day as u8)
        },
        _ => None,
    }
}

/// Formatting then parsing a well-formed date gives the date back.
#[verifier::rlimit(50)]
pub proof fn lemma_date_round_trip(d: Date)
    requires
        d.wf(),
    ensures
        spec_parse_date(date_text(d)) == Some(d),
{
    let s = date_text(d);
    crate::text::lemma_digit_char_val(d.day as int / 10);
    crate::text::lemma_digit_char_val(d.day as int % 10);
    crate::text::lemma_digit_char_val(d.month as int / 10);
    crate::text::lemma_digit_char_val(d.month as int % 10);
    crate::text::lemma_digit_char_val(d.year as int / 1000);
    crate::text::lemma_digit_char_val(d.year as int / 100 % 10);
    crate::text::lemma_digit_char_val(d.year as int / 10 % 10);
    crate::text::lemma_digit_char_val(d.year as int % 10);
    assert(digit_val(s[0]) * 10 + digit_val(s[1]) == d.day as int);
    assert(digit_val(s[3]) * 10 + digit_val(s[4]) == d.month as int);
    assert(digit_val(s[6]) * 1000 + digit_val(s[7]) * 100 + digit_val(s[8]) * 10 + digit_val(s[9])
        == d.year as int);
}

} // verus!
