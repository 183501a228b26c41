use vstd::prelude::*;

use crate::errors::PipelineError;

verus! {

/// True of the ten ASCII digit characters.
pub open spec fn is_digit_char(c: char) -> bool {
    '0' <= c && c <= '9'
}

/// The numeric value of an ASCII digit character.
pub open spec fn digit_value(c: char) -> int {
    c as int - '0' as int
}

/// Reads one ASCII digit, or nothing from any other character.
pub fn digit_of(c: char) -> (r: Option<u32>)
    ensures
        r is Some <==> is_digit_char(c),
        is_digit_char(c) ==> r == Some(digit_value(c) as u32) && 0 <= digit_value(c) <= 9,
{
    if '0' <= c && c <= '9' {
        Some(c as u32 - '0' as u32)
    } else {
        None
    }
}

/// A calendar month: a year and month pair, standing for the first day of
/// that month.
#[derive(Clone, Copy, Debug, PartialEq, Eq, Structural)]
pub struct MonthKey {
    pub year: u32,
    pub month: u32,
}

impl MonthKey {
    /// A well-formed key holds a four-digit year and a real month number.
    pub open spec fn wf(self) -> bool {
        self.year <= 9999 && 1 <= self.month <= 12
    }

    pub open spec fn le_spec(self, other: MonthKey) -> bool {
        self.year < other.year || (self.year == other.year && self.month <= other.month)
    }

    pub open spec fn lt_spec(self, other: MonthKey) -> bool {
        self.year < other.year || (self.year == other.year && self.month < other.month)
    }

    /// The month lies in the closed interval [start, end].
    pub open spec fn in_interval(self, start: MonthKey, end: MonthKey) -> bool {
        start.le_spec(self) && self.le_spec(end)
    }

    pub fn new(year: u32, month: u32) -> (r: Option<MonthKey>)
        ensures
            r is Some <==> (MonthKey { year, month }).wf(),
            r is Some ==> r == Some(MonthKey { year, month }),
    {
        if year <= 9999 && 1 <= month && month <= 12 {
            Some(MonthKey { year, month })
        } else {
            None
        }
    }

    pub fn le(&self, other: &MonthKey) -> (r: bool)
        ensures
            r == self.le_spec(*other),
    {
        self.year < other.year || (self.year == other.year && self.month <= other.month)
    }

    pub fn lt(&self, other: &MonthKey) -> (r: bool)
        ensures
            r == self.lt_spec(*other),
    {
        self.year < other.year || (self.year == other.year && self.month < other.month)
    }

    pub fn within(&self, start: &MonthKey, end: &MonthKey) -> (r: bool)
        ensures
            r == self.in_interval(*start, *end),
    {
        start.le(self) && self.le(end)
    }

    /// The first calendar day of the month.
    pub fn first_day(&self) -> (r: Date)
        requires
            self.wf(),
        ensures
            r == (Date { year: self.year, month: self.month, day: 1 }),
            r.wf(),
    {
        Date { year: self.year, month: self.month, day: 1 }
    }
}

/// True of years with 366 days in the proleptic Gregorian calendar.
pub open spec fn is_leap_year(y: int) -> bool {
    y % 4 == 0 && (y % 100 != 0 || y % 400 == 0)
}

/// How many days a month of a given year has.
pub open spec fn days_in_month(y: int, m: int) -> int {
    if m == 2 {
        if is_leap_year(y) {
            29
        } else {
            28
        }
    } else if m == 4 || m == 6 || m == 9 || m == 11 {
        30
    } else {
        31
    }
}

/// How many days a month of a given year has.
pub fn days_in_month_of(year: u32, month: u32) -> (r: u32)
    requires
        1 <= month <= 12,
    ensures
        r == days_in_month(year as int, month as int),
{
    if month == 2 {
        if year % 4 == 0 && (year % 100 != 0 || year % 400 == 0) {
            29
        } else {
            28
        }
    } else if month == 4 || month == 6 || month == 9 || month == 11 {
        30
    } else {
        31
    }
}

/// A calendar date in the proleptic Gregorian calendar.
#[derive(Clone, Copy, Debug, PartialEq, Eq, Structural)]
pub struct Date {
    pub year: u32,
    pub month: u32,
    pub day: u32,
}

impl Date {
    /// A well-formed date names a day that exists in its month.
    pub open spec fn wf(self) -> bool {
        &&& self.year <= 9999
        &&& 1 <= self.month <= 12
        &&& 1 <= self.day <= days_in_month(self.year as int, self.month as int)
    }

    pub fn new(year: u32, month: u32, day: u32) -> (r: Option<Date>)
        ensures
            r is Some <==> (Date { year, month, day }).wf(),
            r is Some ==> r == Some(Date { year, month, day }),
    {
        if year <= 9999 && 1 <= month && month <= 12 && 1 <= day
            && day <= days_in_month_of(year, month) {
            Some(Date { year, month, day })
        } else {
            None
        }
    }

    /// The month this date falls in.
    pub fn month_key(&self) -> (r: MonthKey)
        ensures
            r == (MonthKey { year: self.year, month: self.month }),
            self.wf() ==> r.wf(),
    {
        MonthKey { year: self.year, month: self.month }
    }
}

/// The shape of a month argument: four year digits, a dash, two month digits.
pub open spec fn is_month_arg(s: Seq<char>) -> bool {
    &&& s.len() == 7
    &&& is_digit_char(s[0]) && is_digit_char(s[1]) && is_digit_char(s[2]) && is_digit_char(s[3])
    &&& s[4] == '-'
    &&& is_digit_char(s[5]) && is_digit_char(s[6])
}

/// The year named by a month argument.
pub open spec fn month_arg_year(s: Seq<char>) -> int {
    digit_value(s[0]) * 1000 + digit_value(s[1]) * 100 + digit_value(s[2]) * 10 + digit_value(s[3])
}

/// The month named by a month argument.
pub open spec fn month_arg_month(s: Seq<char>) -> int {
    digit_value(s[5]) * 10 + digit_value(s[6])
}

/// What parsing a month argument yields: the named month, where the text has
/// the YYYY-MM shape and the month number is real; nothing otherwise.
pub open spec fn parsed_month_arg(s: Seq<char>) -> Option<MonthKey> {
    if is_month_arg(s) && 1 <= month_arg_month(s) <= 12 {
        Some(
            MonthKey {
                year: month_arg_year(s) as u32,
                month: month_arg_month(s) as u32,
            },
        )
    } else {
        None
    }
}

/// Parses a requested month given as `YYYY-MM`. Any other shape, and any
/// month number outside 1..=12, is rejected as a malformed argument.
pub fn parse_month_arg(s: &str) -> (r: Result<MonthKey, PipelineError>)
    ensures
        r is Ok <==> parsed_month_arg(s@) is Some,
        r is Ok ==> parsed_month_arg(s@) == Some(r->Ok_0) && r->Ok_0.wf(),
        r is Err ==> r->Err_0 == PipelineError::ArgumentParse,
{
    let n = s.unicode_len();
    if n != 7 {
        return Err(PipelineError::ArgumentParse);
    }
    if s.get_char(4) != '-' {
        return Err(PipelineError::ArgumentParse);
    }
    let d0 = digit_of(s.get_char(0));
    let d1 = digit_of(s.get_char(1));
    let d2 = digit_of(s.get_char(2));
    let d3 = digit_of(s.get_char(3));
    let d5 = digit_of(s.get_char(5));
    let d6 = digit_of(s.get_char(6));
    match (d0, d1, d2, d3, d5, d6) {
        (Some(y0), Some(y1), Some(y2), Some(y3), Some(m0), Some(m1)) => {
            let year: u32 = y0 * 1000 + y1 * 100 + y2 * 10 + y3;
            let month: u32 = m0 * 10 + m1;
            if 1 <= month && month <= 12 {
                Ok(MonthKey { year, month })
            } else {
                Err(PipelineError::ArgumentParse)
            }
        },
        _ => Err(PipelineError::ArgumentParse),
    }
}

} // verus!
