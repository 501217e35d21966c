//! Daily log notes: a calendar date as chrono accepts it, the name of the note
//! for a day (`Log/<YYYY-MM-DD>.md`) and the line appended to it.
use vstd::prelude::*;
use crate::text::{copy_text, decimal, push_text, zero_padded};

verus! {

/// The earliest year that chrono's `NaiveDate` represents.
pub const MIN_YEAR: i32 = -262143;

/// The latest year that chrono's `NaiveDate` represents.
pub const MAX_YEAR: i32 = 262142;

/// The folder of the vault that holds the daily log notes.
pub const LOG_DIR: &'static str = "Log";

/// Whether `y` is a leap year of the proleptic Gregorian calendar.
pub open spec fn is_leap(y: int) -> bool {
    y % 4 == 0 && (y % 100 != 0 || y % 400 == 0)
}

/// The number of days of month `m` in year `y`.
pub open spec fn days_in_month(y: int, m: int) -> int {
    if m == 2 {
        if is_leap(y) {
            29
        } else {
            28
        }
    } else if m == 4 || m == 6 || m == 9 || m == 11 {
        30
    } else {
        31
    }
}

/// Whether `(y, m, d)` is a day that chrono's `NaiveDate` represents.
pub open spec fn valid_date(y: int, m: int, d: int) -> bool {
    &&& MIN_YEAR <= y <= MAX_YEAR
    &&& 1 <= m <= 12
    &&& 1 <= d <= days_in_month(y, m)
}

/// The day before `(y, m, d)`.
pub open spec fn day_before(date: (int, int, int)) -> (int, int, int) {
    let (y, m, d) = date;
    if d > 1 {
        (y, m, d - 1)
    } else if m > 1 {
        (y, m - 1, days_in_month(y, m - 1))
    } else {
        (y - 1, 12, 31)
    }
}

/// The day `n` days before `date`.
pub open spec fn days_back(date: (int, int, int), n: nat) -> (int, int, int)
    decreases n,
{
    if n == 0 {
        date
    } else {
        days_back(day_before(date), (n - 1) as nat)
    }
}

/// A year as chrono writes it for `%Y`: four digits, and a sign in front of
/// years outside `0..=9999`.
pub open spec fn year_text(y: int) -> Seq<char> {
    if 0 <= y <= 9999 {
        zero_padded(decimal(y as nat), 4)
    } else if y > 9999 {
        seq!['+'] + zero_padded(decimal(y as nat), 4)
    } else {
        seq!['-'] + zero_padded(decimal((-y) as nat), 4)
    }
}

/// A day written `YYYY-MM-DD`.
pub open spec fn date_text(date: (int, int, int)) -> Seq<char> {
    year_text(date.0) + seq!['-'] + zero_padded(decimal(date.1 as nat), 2) + seq!['-']
        + zero_padded(decimal(date.2 as nat), 2)
}

/// A calendar day that chrono's `NaiveDate` represents.
#[derive(Debug, PartialEq, Eq, Clone, Copy)]
pub struct LogDate {
    year: i32,
    month: u32,
    day: u32,
}

impl View for LogDate {
    type V = (int, int, int);

    closed spec fn view(&self) -> (int, int, int) {
        (self.year as int, self.month as int, self.day as int)
    }
}

impl LogDate {
    #[verifier::type_invariant]
    spec fn representable(self) -> bool {
        valid_date(self.year as int, self.month as int, self.day as int)
    }

    /// The day `(year, month, day)`, when chrono represents it.
    pub fn new(year: i32, month: u32, day: u32) -> (r: Option<LogDate>)
        ensures
            match r {
                Some(d) => d@ == (year as int, month as int, day as int),
                None => !valid_date(year as int, month as int, day as int),
            },
    {
        if year < MIN_YEAR || year > MAX_YEAR || month < 1 || month > 12 || day < 1 {
            return None;
        }
        let leap = year % 4 == 0 && (year % 100 != 0 || year % 400 == 0);
        let last: u32 = if month == 2 {
            if leap {
                29
            } else {
                28
            }
        } else if month == 4 || month == 6 || month == 9 || month == 11 {
            30
        } else {
            31
        };
        assert(leap == is_leap(year as int)) by (nonlinear_arith)
            requires
                leap == (year % 4 == 0 && (year % 100 != 0 || year % 400 == 0)),
        ;
        if day > last {
            return None;
        }
        Some(LogDate { year, month, day })
    }

    pub fn year(&self) -> (r: i32)
        ensures
            r as int == self@.0,
            valid_date(self@.0, self@.1, self@.2),
    {
        proof {
            use_type_invariant(self);
        }
        self.year
    }

    pub fn month(&self) -> (r: u32)
        ensures
            r as int == self@.1,
    {
        self.month
    }

    pub fn day(&self) -> (r: u32)
        ensures
            r as int == self@.2,
    {
        self.day
    }
}

/// chrono's `NaiveDate::format` with `%Y-%m-%d`: writes the day as
/// `YYYY-MM-DD`, with a sign before years outside `0..=9999` (as the formatting
/// code of the crate does).
#[verifier::external_body]
fn chrono_format_ymd(date: &LogDate) -> (s: String)
    ensures
        s@ == date_text(date@),
{
    chrono::NaiveDate::from_ymd_opt(date.year, date.month, date.day).unwrap().format(
        "%Y-%m-%d",
    ).to_string()
}

/// chrono's `Display` for `NaiveDate`: the same `YYYY-MM-DD` text as `%Y-%m-%d`
/// (the crate writes both through the same steps).
#[verifier::external_body]
fn chrono_display_date(date: &LogDate) -> (s: String)
    ensures
        s@ == date_text(date@),
{
    chrono::NaiveDate::from_ymd_opt(date.year, date.month, date.day).unwrap().to_string()
}

/// chrono's `NaiveDate - TimeDelta::days(days)`: the calendar day `days` days
/// earlier (chrono's calendar is the proleptic Gregorian one). Every `u32` of
/// days fits in a `TimeDelta`. The subtraction panics when the day it lands on
/// is before chrono's earliest year, which `requires` rules out; a day at or
/// after that year is fewer than `i32::MAX` days back, the other bound that the
/// subtraction checks.
#[verifier::external_body]
fn chrono_days_before(date: &LogDate, days: u32) -> (r: LogDate)
    requires
        days_back(date@, days as nat).0 >= MIN_YEAR,
    ensures
        r@ == days_back(date@, days as nat),
{
    let d = chrono::NaiveDate::from_ymd_opt(date.year, date.month, date.day).unwrap()
        - chrono::Duration::days(days as i64);
    LogDate {
        year: chrono::Datelike::year(&d),
        month: chrono::Datelike::month(&d),
        day: chrono::Datelike::day(&d),
    }
}

/// Going back in the calendar never moves to a later year.
pub proof fn lemma_days_back_year_monotone(date: (int, int, int), i: nat, j: nat)
    requires
        i <= j,
    ensures
        days_back(date, j).0 <= days_back(date, i).0,
    decreases i,
{
    if i > 0 {
        lemma_days_back_year_monotone(day_before(date), (i - 1) as nat, (j - 1) as nat);
    } else {
        lemma_days_back_year_le(date, j);
    }
}

proof fn lemma_days_back_year_le(date: (int, int, int), n: nat)
    ensures
        days_back(date, n).0 <= date.0,
    decreases n,
{
    if n > 0 {
        lemma_days_back_year_le(day_before(date), (n - 1) as nat);
    }
}

/// The day written `YYYY-MM-DD`, as in the name of its log note.
pub fn date_text_of(date: &LogDate) -> (s: String)
    ensures
        s@ == date_text(date@),
{
    chrono_format_ymd(date)
}

/// The day written `YYYY-MM-DD`, as in a heading.
pub fn date_heading(date: &LogDate) -> (s: String)
    ensures
        s@ == date_text(date@),
{
    chrono_display_date(date)
}

/// The day `days` days before `date`.
pub fn days_before(date: &LogDate, days: u32) -> (r: LogDate)
    requires
        days_back(date@, days as nat).0 >= MIN_YEAR,
    ensures
        r@ == days_back(date@, days as nat),
{
    chrono_days_before(date, days)
}

/// The name of the log note of a day: `YYYY-MM-DD.md`.
pub fn dated_note_name(date: &LogDate) -> (s: String)
    ensures
        s@ == date_text(date@) + ".md"@,
{
    let mut s = chrono_format_ymd(date);
    push_text(&mut s, ".md");
    s
}

/// The line appended to a log note for `content`: the content and a line break.
pub fn log_entry(content: &str) -> (s: String)
    ensures
        s@ == content@.push('\n'),
{
    let mut s = copy_text(content);
    s.push('\n');
    s
}

} // verus!
