//! A plain calendar-date model: proleptic Gregorian dates held as
//! year, month and day, with no time component and no time zone.

use vstd::prelude::*;
use vstd::string::{StrSliceExecFns, StringExecFns};

verus! {

use crate::SchedulerError;

/// A calendar date. Valid dates satisfy [`Date::wf`].
#[derive(Clone, Copy, Debug, PartialEq, Eq, Structural)]
pub struct Date {
    pub year: i64,
    pub month: u8,
    pub day: u8,
}

/// Whether `y` is a leap year in the Gregorian calendar.
pub open spec fn is_leap_year(y: int) -> bool {
    y % 4 == 0 && (y % 100 != 0 || y % 400 == 0)
}

/// Number of days in month `m` of year `y` (1-based months).
pub open spec fn days_in_month(y: int, m: int) -> int {
    if m == 2 {
        if is_leap_year(y) {
            29
        } else {
            28
        }
    } else if m == 4 || m == 6 || m == 9 || m == 11 {
        30
    } else {
        31
    }
}

impl Date {
    /// A well-formed date: a nonnegative year, with month and day inside the calendar.
    pub open spec fn wf(self) -> bool {
        &&& 0 <= self.year
        &&& 1 <= self.month <= 12
        &&& 1 <= self.day <= days_in_month(self.year as int, self.month as int)
    }
}

/// Lexicographic order on (year, month, day): `a` is on or before `b`.
pub open spec fn date_le(a: Date, b: Date) -> bool {
    ||| a.year < b.year
    ||| (a.year == b.year && a.month < b.month)
    ||| (a.year == b.year && a.month == b.month && a.day <= b.day)
}

/// Strict version of [`date_le`]: `a` is strictly before `b`.
pub open spec fn date_lt(a: Date, b: Date) -> bool {
    date_le(a, b) && a != b
}

/// The calendar successor of `d`.
pub open spec fn spec_next_day(d: Date) -> Date {
    if d.day < days_in_month(d.year as int, d.month as int) {
        Date { year: d.year, month: d.month, day: (d.day + 1) as u8 }
    } else if d.month < 12 {
        Date { year: d.year, month: (d.month + 1) as u8, day: 1 }
    } else {
        Date { year: (d.year + 1) as i64, month: 1, day: 1 }
    }
}

/// The date `n` days after `d`.
pub open spec fn spec_add_days(d: Date, n: nat) -> Date
    decreases n,
{
    if n == 0 {
        d
    } else {
        spec_next_day(spec_add_days(d, (n - 1) as nat))
    }
}

/// Executable check that a (year, month, day) triple is a real calendar date.
pub fn is_valid_date(year: i64, month: u8, day: u8) -> (r: bool)
    ensures
        r == (Date { year, month, day }).wf(),
{
    if year < 0 || month < 1 || month > 12 {
        return false;
    }
    let dim: u8 = days_in_month_exec(year, month);
    1 <= day && day <= dim
}

/// Executable twin of [`days_in_month`].
pub fn days_in_month_exec(year: i64, month: u8) -> (r: u8)
    requires
        0 <= year,
        1 <= month <= 12,
    ensures
        r as int == days_in_month(year as int, month as int),
{
    if month == 2 {
        if (year % 4 == 0) && (year % 100 != 0 || year % 400 == 0) {
            29
        } else {
            28
        }
    } else if month == 4 || month == 6 || month == 9 || month == 11 {
        30
    } else {
        31
    }
}

/// The day after `d`.
pub fn next_day(d: Date) -> (r: Date)
    requires
        d.wf(),
        d.year < i64::MAX,
    ensures
        r == spec_next_day(d),
        r.wf(),
        date_lt(d, r),
        r.year <= d.year + 1,
{
    let dim: u8 = days_in_month_exec(d.year, d.month);
    if d.day < dim {
        Date { year: d.year, month: d.month, day: d.day + 1 }
    } else if d.month < 12 {
        Date { year: d.year, month: d.month + 1, day: 1 }
    } else {
        Date { year: d.year + 1, month: 1, day: 1 }
    }
}

/// The date `n` days after `d`; never earlier than `d`.
pub fn add_days(d: Date, n: u32) -> (r: Date)
    requires
        d.wf(),
        d.year + n <= i64::MAX,
    ensures
        r == spec_add_days(d, n as nat),
        r.wf(),
        date_le(d, r),
        n > 0 ==> date_lt(d, r),
        r.year <= d.year + n,
{
    let mut cur: Date = d;
    let mut i: u32 = 0;
    while i < n
        invariant
            i <= n,
            d.wf(),
            d.year + n <= i64::MAX,
            cur == spec_add_days(d, i as nat),
            cur.wf(),
            date_le(d, cur),
            i > 0 ==> date_lt(d, cur),
            cur.year <= d.year + i,
        decreases n - i,
    {
        cur = next_day(cur);
        i = i + 1;
    }
    cur
}

/// Whether `c` is a decimal digit.
pub open spec fn is_digit_char(c: char) -> bool {
    '0' <= c && c <= '9'
}

/// The numeric value of a decimal digit character.
pub open spec fn digit_val(c: char) -> int {
    c as int - '0' as int
}

/// Whether `s` has the shape `YYYY-MM-DD`: four digits, a dash, two digits,
/// a dash, two digits, and nothing else.
pub open spec fn is_date_text(s: Seq<char>) -> bool {
    &&& s.len() == 10
    &&& is_digit_char(s[0]) && is_digit_char(s[1]) && is_digit_char(s[2]) && is_digit_char(s[3])
    &&& s[4] == '-'
    &&& is_digit_char(s[5]) && is_digit_char(s[6])
    &&& s[7] == '-'
    &&& is_digit_char(s[8]) && is_digit_char(s[9])
}

/// The date a `YYYY-MM-DD` text denotes (meaningful when [`is_date_text`]
/// holds of `s`).
pub open spec fn date_of_text(s: Seq<char>) -> Date {
    Date {
        year: (digit_val(s[0]) * 1000 + digit_val(s[1]) * 100 + digit_val(s[2]) * 10 + digit_val(
            s[3],
        )) as i64,
        month: (digit_val(s[5]) * 10 + digit_val(s[6])) as u8,
        day: (digit_val(s[8]) * 10 + digit_val(s[9])) as u8,
    }
}

/// The numeric value of a digit character, or nothing for any other
/// character.
pub fn digit_value(c: char) -> (r: Option<u8>)
    ensures
        is_digit_char(c) ==> r == Some((digit_val(c) as u8)),
        !is_digit_char(c) ==> r == None::<u8>,
{
    let v: u32 = c as u32;
    if 48 <= v && v <= 57 {
        Some((v - 48) as u8)
    } else {
        None
    }
}

/// Parses a calendar date from `YYYY-MM-DD` text. Succeeds exactly on texts
/// of that shape that denote a real calendar date; everything else is
/// rejected with [`SchedulerError::InvalidDate`].
pub fn parse_date(s: &str) -> (r: Result<Date, SchedulerError>)
    ensures
        (is_date_text(s@) && date_of_text(s@).wf()) ==> r == Ok::<Date, SchedulerError>(
            date_of_text(s@),
        ),
        !(is_date_text(s@) && date_of_text(s@).wf()) ==> r == Err::<Date, SchedulerError>(
            SchedulerError::InvalidDate,
        ),
{
    if s.unicode_len() != 10 {
        return Err(SchedulerError::InvalidDate);
    }
    if s.get_char(4) != '-' || s.get_char(7) != '-' {
        return Err(SchedulerError::InvalidDate);
    }
    let y0 = match digit_value(s.get_char(0)) {
        Some(v) => v,
        None => {
            return Err(SchedulerError::InvalidDate);
        },
    };
    let y1 = match digit_value(s.get_char(1)) {
        Some(v) => v,
        None => {
            return Err(SchedulerError::InvalidDate);
        },
    };
    let y2 = match digit_value(s.get_char(2)) {
        Some(v) => v,
        None => {
            return Err(SchedulerError::InvalidDate);
        },
    };
    let y3 = match digit_value(s.get_char(3)) {
        Some(v) => v,
        None => {
            return Err(SchedulerError::InvalidDate);
        },
    };
    let m0 = match digit_value(s.get_char(5)) {
        Some(v) => v,
        None => {
            return Err(SchedulerError::InvalidDate);
        },
    };
    let m1 = match digit_value(s.get_char(6)) {
        Some(v) => v,
        None => {
            return Err(SchedulerError::InvalidDate);
        },
    };
    let d0 = match digit_value(s.get_char(8)) {
        Some(v) => v,
        None => {
            return Err(SchedulerError::InvalidDate);
        },
    };
    let d1 = match digit_value(s.get_char(9)) {
        Some(v) => v,
        None => {
            return Err(SchedulerError::InvalidDate);
        },
    };
    let year: i64 = (y0 as i64) * 1000 + (y1 as i64) * 100 + (y2 as i64) * 10 + (y3 as i64);
    let month: u8 = m0 * 10 + m1;
    let day: u8 = d0 * 10 + d1;
    if is_valid_date(year, month, day) {
        Ok(Date { year, month, day })
    } else {
        Err(SchedulerError::InvalidDate)
    }
}

/// The decimal digit character for a value between 0 and 9.
pub open spec fn spec_digit_char(v: int) -> char {
    if v == 0 {
        '0'
    } else if v == 1 {
        '1'
    } else if v == 2 {
        '2'
    } else if v == 3 {
        '3'
    } else if v == 4 {
        '4'
    } else if v == 5 {
        '5'
    } else if v == 6 {
        '6'
    } else if v == 7 {
        '7'
    } else if v == 8 {
        '8'
    } else {
        '9'
    }
}

/// The `YYYY-MM-DD` text of a date (meaningful for well-formed dates with
/// a year of at most 9999).
pub open spec fn spec_date_text(d: Date) -> Seq<char> {
    seq![
        spec_digit_char(d.year as int / 1000 % 10),
        spec_digit_char(d.year as int / 100 % 10),
        spec_digit_char(d.year as int / 10 % 10),
        spec_digit_char(d.year as int % 10),
        '-',
        spec_digit_char(d.month as int / 10),
        spec_digit_char(d.month as int % 10),
        '-',
        spec_digit_char(d.day as int / 10),
        spec_digit_char(d.day as int % 10),
    ]
}

/// The one-character text of a decimal digit value.
pub fn digit_str(v: u8) -> (r: &'static str)
    requires
        v < 10,
    ensures
        r@.len() == 1,
        r@[0] == spec_digit_char(v as int),
{
    proof {
        reveal_strlit("0");
        reveal_strlit("1");
        reveal_strlit("2");
        reveal_strlit("3");
        reveal_strlit("4");
        reveal_strlit("5");
        reveal_strlit("6");
        reveal_strlit("7");
        reveal_strlit("8");
        reveal_strlit("9");
    }
    match v {
        0 => "0",
        1 => "1",
        2 => "2",
        3 => "3",
        4 => "4",
        5 => "5",
        6 => "6",
        7 => "7",
        8 => "8",
        _ => "9",
    }
}

/// Serializes a date as `YYYY-MM-DD` text.
pub fn format_date(d: Date) -> (t: String)
    requires
        d.wf(),
        d.year <= 9999,
    ensures
        t@ == spec_date_text(d),
{
    let y0: u8 = ((d.year / 1000) % 10) as u8;
    let y1: u8 = ((d.year / 100) % 10) as u8;
    let y2: u8 = ((d.year / 10) % 10) as u8;
    let y3: u8 = (d.year % 10) as u8;
    let m0: u8 = d.month / 10;
    let m1: u8 = d.month % 10;
    let d0: u8 = d.day / 10;
    let d1: u8 = d.day % 10;
    proof {
        reveal_strlit("-");
    }
    let mut t = String::new();
    t.append(digit_str(y0));
    t.append(digit_str(y1));
    t.append(digit_str(y2));
    t.append(digit_str(y3));
    t.append("-");
    t.append(digit_str(m0));
    t.append(digit_str(m1));
    t.append("-");
    t.append(digit_str(d0));
    t.append(digit_str(d1));
    proof {
        assert(t@ =~= spec_date_text(d));
    }
    t
}

/// The `YYYY-MM-DD` encoding is bidirectional: the text of a supported date
/// is well shaped and denotes that same date.
pub proof fn lemma_date_text_round_trip(d: Date)
    requires
        d.wf(),
        d.year <= 9999,
    ensures
        is_date_text(spec_date_text(d)),
        date_of_text(spec_date_text(d)) == d,
{
    let y = d.year as int;
    assert(y == (y / 1000 % 10) * 1000 + (y / 100 % 10) * 100 + (y / 10 % 10) * 10 + y % 10)
        by (nonlinear_arith)
        requires
            0 <= y <= 9999,
    ;
    let m = d.month as int;
    assert(m == (m / 10) * 10 + m % 10) by (nonlinear_arith)
        requires
            0 <= m <= 12,
    ;
    let dy = d.day as int;
    assert(dy == (dy / 10) * 10 + dy % 10) by (nonlinear_arith)
        requires
            0 <= dy <= 31,
    ;
}

/// The calendar successor is a later well-formed date.
pub proof fn lemma_next_day_later(d: Date)
    requires
        d.wf(),
        d.year < i64::MAX,
    ensures
        spec_next_day(d).wf(),
        date_lt(d, spec_next_day(d)),
        spec_next_day(d).year <= d.year + 1,
{
}

/// Adding days never moves a date earlier.
pub proof fn lemma_add_days_not_earlier(d: Date, n: nat)
    requires
        d.wf(),
        d.year + n <= i64::MAX,
    ensures
        date_le(d, spec_add_days(d, n)),
        spec_add_days(d, n).wf(),
        spec_add_days(d, n).year <= d.year + n,
    decreases n,
{
    if n > 0 {
        lemma_add_days_not_earlier(d, (n - 1) as nat);
        lemma_next_day_later(spec_add_days(d, (n - 1) as nat));
    }
}

} // verus!
