//! Calendar days.

use vstd::prelude::*;
use vstd::string::*;
use chrono::Datelike;
use crate::utils::text::{append_decimal, decimal_repr};

verus! {

/// A day of the proleptic Gregorian calendar, without a time zone.
#[derive(Debug, Clone, Copy, PartialEq, Eq, Hash, Structural)]
pub struct Date {
    pub year: i32,
    pub month: u32,
    pub day: u32,
}

pub open spec fn is_leap_year(year: int) -> bool {
    year % 4 == 0 && (year % 100 != 0 || year % 400 == 0)
}

pub open spec fn days_in_month(year: int, month: int) -> int {
    if month == 2 {
        if is_leap_year(year) {
            29
        } else {
            28
        }
    } else if month == 4 || month == 6 || month == 9 || month == 11 {
        30
    } else {
        31
    }
}

/// What `NaiveDate::parse_from_str` of chrono reads from a text under the
/// format `%Y%m%d`, as year, month and day; `None` where it reports an error.
pub uninterp spec fn chrono_compact_date(text: Seq<char>) -> Option<(int, int, int)>;

/// Year, month and day of an optional date.
pub open spec fn date_triple(d: Option<Date>) -> Option<(int, int, int)> {
    match d {
        Some(d) => Some((d.year as int, d.month as int, d.day as int)),
        None => None,
    }
}

/// The day that chrono reads from a text written as `YYYYMMDD`.
pub open spec fn compact_date(text: Seq<char>) -> Option<Date> {
    match chrono_compact_date(text) {
        Some(t) => Some(Date { year: t.0 as i32, month: t.1 as u32, day: t.2 as u32 }),
        None => None,
    }
}

impl Date {
    /// Whether the month and the day exist in the calendar.
    pub open spec fn is_valid(self) -> bool {
        1 <= self.month <= 12 && 1 <= self.day <= days_in_month(
            self.year as int,
            self.month as int,
        )
    }

    /// Earlier in time: the order of (year, month, day).
    pub open spec fn before(self, other: Date) -> bool {
        self.year < other.year || (self.year == other.year && (self.month < other.month || (
        self.month == other.month && self.day < other.day)))
    }

    /// The text `YYYY-MM-DD`: the year as `year_text` gives it, the month and
    /// the day in two digits.
    pub open spec fn text(self) -> Seq<char> {
        year_text(self.year as int) + seq!['-'] + padded2(self.month as nat) + seq!['-']
            + padded2(self.day as nat)
    }

    /// The day with the given year, month and day of month, if it exists.
    pub fn from_ymd_opt(year: i32, month: u32, day: u32) -> (r: Option<Date>)
        ensures
            r == if (Date { year, month, day }).is_valid() {
                Some(Date { year, month, day })
            } else {
                None::<Date>
            },
    {
        if month < 1 || month > 12 || day < 1 {
            return None;
        }
        let leap = year % 4 == 0 && (year % 100 != 0 || year % 400 == 0);
        let limit: u32 = if month == 2 {
            if leap {
                29
            } else {
                28
            }
        } else if month == 4 || month == 6 || month == 9 || month == 11 {
            30
        } else {
            31
        };
        if day > limit {
            None
        } else {
            Some(Date { year, month, day })
        }
    }

    pub fn is_before(&self, other: &Date) -> (r: bool)
        ensures
            r == self.before(*other),
    {
        self.year < other.year || (self.year == other.year && (self.month < other.month || (
        self.month == other.month && self.day < other.day)))
    }

    /// Reads a day written as `YYYYMMDD`.
    ///
    /// The reading is chrono's: the result is what its parser gives for the
    /// format `%Y%m%d`, and a day that it gives exists in the calendar.
    pub fn parse_compact(text: &str) -> (r: Option<Date>)
        ensures
            date_triple(r) == chrono_compact_date(text@),
            r == compact_date(text@),
            r matches Some(d) ==> d.is_valid(),
    {
        parse_compact_date(text)
    }

    /// The earlier of two days.
    pub fn earlier(self, other: Date) -> (r: Date)
        ensures
            r == earlier_of(self, other),
    {
        if other.is_before(&self) {
            other
        } else {
            self
        }
    }

    /// The later of two days.
    pub fn later(self, other: Date) -> (r: Date)
        ensures
            r == later_of(self, other),
    {
        if self.is_before(&other) {
            other
        } else {
            self
        }
    }

    /// The day as `YYYY-MM-DD`.
    pub fn to_text(&self) -> (s: String)
        ensures
            s@ == self.text(),
    {
        let mut s = String::new();
        if self.year < 0 {
            s.append("-");
            append_padded4(&mut s, (-(self.year as i64)) as u64);
        } else if self.year > 9999 {
            s.append("+");
            append_padded4(&mut s, self.year as u64);
        } else {
            append_padded4(&mut s, self.year as u64);
        }
        s.append("-");
        append_padded2(&mut s, self.month);
        s.append("-");
        append_padded2(&mut s, self.day);
        proof {
            reveal_strlit("-");
            reveal_strlit("+");
            assert(s@ =~= self.text());
        }
        s
    }
}

pub open spec fn earlier_of(a: Date, b: Date) -> Date {
    if b.before(a) {
        b
    } else {
        a
    }
}

pub open spec fn later_of(a: Date, b: Date) -> Date {
    if a.before(b) {
        b
    } else {
        a
    }
}

/// A number in at least four digits.
pub open spec fn padded4(n: nat) -> Seq<char> {
    if n < 10 {
        seq!['0', '0', '0'] + decimal_repr(n)
    } else if n < 100 {
        seq!['0', '0'] + decimal_repr(n)
    } else if n < 1000 {
        seq!['0'] + decimal_repr(n)
    } else {
        decimal_repr(n)
    }
}

/// A year as a date writes it: from 0 to 9999 in four digits; any other with
/// its sign, `+` or `-`, before at least four digits.
pub open spec fn year_text(year: int) -> Seq<char> {
    if 0 <= year <= 9999 {
        padded4(year as nat)
    } else if year < 0 {
        seq!['-'] + padded4((-year) as nat)
    } else {
        seq!['+'] + padded4(year as nat)
    }
}

fn append_padded4(s: &mut String, n: u64)
    ensures
        final(s)@ == old(s)@ + padded4(n as nat),
{
    if n < 10 {
        s.append("000");
    } else if n < 100 {
        s.append("00");
    } else if n < 1000 {
        s.append("0");
    }
    append_decimal(s, n);
    proof {
        reveal_strlit("000");
        reveal_strlit("00");
        reveal_strlit("0");
        assert(final(s)@ =~= old(s)@ + padded4(n as nat));
    }
}

/// A number in at least two digits.
pub open spec fn padded2(n: nat) -> Seq<char> {
    if n < 10 {
        seq!['0'] + decimal_repr(n)
    } else {
        decimal_repr(n)
    }
}

pub fn append_padded2(s: &mut String, n: u32)
    ensures
        final(s)@ == old(s)@ + padded2(n as nat),
{
    if n < 10 {
        s.append("0");
    }
    append_decimal(s, n as u64);
    proof {
        reveal_strlit("0");
        assert(final(s)@ =~= old(s)@ + padded2(n as nat));
    }
}

/// `NaiveDate::parse_from_str` of chrono with the format `%Y%m%d`: the day
/// that it reads, or `None` where it reports an error. A `NaiveDate` is a day
/// of the calendar, so the month and the day of the result exist.
#[verifier::external_body]
fn parse_compact_date(text: &str) -> (r: Option<Date>)
    ensures
        date_triple(r) == chrono_compact_date(text@),
        r matches Some(d) ==> d.is_valid(),
{
    match chrono::NaiveDate::parse_from_str(text, "%Y%m%d") {
        Ok(d) => Some(Date { year: d.year(), month: d.month(), day: d.day() }),
        Err(_) => None,
    }
}

} // verus!
