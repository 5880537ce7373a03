use vstd::prelude::*;
use chrono::Datelike;

verus! {

/// Whether `y` is a leap year of the proleptic Gregorian calendar.
pub open spec fn is_leap_year(y: int) -> bool {
    (y % 4 == 0 && y % 100 != 0) || y % 400 == 0
}

/// Number of days in month `m` (1..=12) of year `y`.
pub open spec fn days_in_month(y: int, m: int) -> int {
    if m == 2 {
        if is_leap_year(y) { 29 } else { 28 }
    } else if m == 4 || m == 6 || m == 9 || m == 11 {
        30
    } else {
        31
    }
}

/// Whether (y, m, d) names a day of the proleptic Gregorian calendar.
pub open spec fn is_calendar_date(y: int, m: int, d: int) -> bool {
    1 <= m <= 12 && 1 <= d <= days_in_month(y, m)
}

/// A whole calendar day, with a four-digit year. It carries no time of day
/// and no time zone, so storing and comparing it needs no conversion.
#[derive(Clone, Copy, Debug, PartialEq, Eq, Structural)]
pub struct CalendarDate {
    pub year: i32,
    pub month: u32,
    pub day: u32,
}

/// Why a date argument was not accepted.
#[derive(Clone, Copy, Debug, PartialEq, Eq, Structural)]
pub enum DateError {
    /// The text is not of the shape `MM-DD-YYYY`.
    Malformed,
    /// The text has the right shape but names no day of the calendar.
    NoSuchDay,
    /// The year cannot be written with four digits.
    YearOutOfRange,
}

impl CalendarDate {
    pub open spec fn wf(self) -> bool {
        0 <= self.year <= 9999 && is_calendar_date(self.year as int, self.month as int, self.day as int)
    }

    /// Chronological order: `self` falls strictly before `other`.
    pub open spec fn spec_before(self, other: CalendarDate) -> bool {
        self.year < other.year || (self.year == other.year && (self.month < other.month || (
        self.month == other.month && self.day < other.day)))
    }

    /// Whether this is a day of the calendar with a four-digit year.
    pub fn is_valid(&self) -> (r: bool)
        ensures
            r == self.wf(),
    {
        0 <= self.year && self.year <= 9999 && chrono_date_exists(self.year, self.month, self.day)
    }

    /// Whether `self` falls strictly before `other`.
    pub fn is_before(&self, other: &CalendarDate) -> (r: bool)
        ensures
            r == self.spec_before(*other),
    {
        self.year < other.year || (self.year == other.year && (self.month < other.month || (
        self.month == other.month && self.day < other.day)))
    }
}

/// Relies on chrono::NaiveDate::from_ymd_opt, which returns `None` exactly
/// when the month or day is invalid or the day does not exist in that year.
#[verifier::external_body]
fn chrono_date_exists(year: i32, month: u32, day: u32) -> (r: bool)
    requires
        0 <= year <= 9999,
    ensures
        r == is_calendar_date(year as int, month as int, day as int),
{
    chrono::NaiveDate::from_ymd_opt(year, month, day).is_some()
}

/// Relies on chrono's `From<SystemTime> for DateTime<Local>`, applied to
/// `SystemTime::now()`, and on DateTime::date_naive: the calendar day of the
/// local wall clock, which is always a day of the calendar. That conversion
/// accepts clock readings before 1970, and falls back to UTC when the local
/// zone cannot be read.
#[verifier::external_body]
pub(crate) fn chrono_local_today() -> (r: (i32, u32, u32))
    ensures
        is_calendar_date(r.0 as int, r.1 as int, r.2 as int),
{
    let today = chrono::DateTime::<chrono::Local>::from(std::time::SystemTime::now()).date_naive();
    (today.year(), today.month(), today.day())
}

/// The date that a day read from the clock gives: that day when its year
/// has four digits, else `YearOutOfRange`.
pub open spec fn clock_day(year: i32, month: u32, day: u32) -> Result<CalendarDate, DateError> {
    if 0 <= year <= 9999 {
        Ok(CalendarDate { year, month, day })
    } else {
        Err(DateError::YearOutOfRange)
    }
}

/// The date for a calendar day read from the clock.
pub fn calendar_day(year: i32, month: u32, day: u32) -> (r: Result<CalendarDate, DateError>)
    requires
        is_calendar_date(year as int, month as int, day as int),
    ensures
        r == clock_day(year, month, day),
        r matches Ok(d) ==> d.wf(),
{
    if 0 <= year && year <= 9999 {
        Ok(CalendarDate { year, month, day })
    } else {
        Err(DateError::YearOutOfRange)
    }
}

/// The calendar day of the local wall clock, when its year has four digits.
/// The result is `clock_day` of the calendar day that the clock gave.
pub fn local_today() -> (r: Result<CalendarDate, DateError>)
    ensures
        r matches Ok(d) ==> d.wf(),
        r matches Err(e) ==> e == DateError::YearOutOfRange,
        exists|y: i32, m: u32, d: u32|
            is_calendar_date(y as int, m as int, d as int) && r == #[trigger] clock_day(y, m, d),
{
    let (year, month, day) = chrono_local_today();
    calendar_day(year, month, day)
}

/// Whether `c` is an ASCII decimal digit.
pub open spec fn is_digit(c: char) -> bool {
    '0' <= c && c <= '9'
}

/// The value of the decimal digit `c`.
pub open spec fn digit_value(c: char) -> int {
    (c as u32) as int - 48
}

/// The character of the decimal digit `n` (0..=9).
pub open spec fn digit_char(n: int) -> char {
    if n <= 0 { '0' }
    else if n == 1 { '1' }
    else if n == 2 { '2' }
    else if n == 3 { '3' }
    else if n == 4 { '4' }
    else if n == 5 { '5' }
    else if n == 6 { '6' }
    else if n == 7 { '7' }
    else if n == 8 { '8' }
    else { '9' }
}

/// Whether `s` has the shape `MM-DD-YYYY`: ten characters, digits but for
/// the two hyphens.
pub open spec fn is_date_shaped(s: Seq<char>) -> bool {
    &&& s.len() == 10
    &&& is_digit(s[0]) && is_digit(s[1])
    &&& s[2] == '-'
    &&& is_digit(s[3]) && is_digit(s[4])
    &&& s[5] == '-'
    &&& is_digit(s[6]) && is_digit(s[7]) && is_digit(s[8]) && is_digit(s[9])
}

pub open spec fn shaped_month(s: Seq<char>) -> int {
    10 * digit_value(s[0]) + digit_value(s[1])
}

pub open spec fn shaped_day(s: Seq<char>) -> int {
    10 * digit_value(s[3]) + digit_value(s[4])
}

pub open spec fn shaped_year(s: Seq<char>) -> int {
    1000 * digit_value(s[6]) + 100 * digit_value(s[7]) + 10 * digit_value(s[8]) + digit_value(s[9])
}

/// What a date argument means: the day it names in `MM-DD-YYYY`, or why it
/// names none.
pub open spec fn parsed_date(s: Seq<char>) -> Result<CalendarDate, DateError> {
    if !is_date_shaped(s) {
        Err(DateError::Malformed)
    } else if !is_calendar_date(shaped_year(s), shaped_month(s), shaped_day(s)) {
        Err(DateError::NoSuchDay)
    } else {
        Ok(CalendarDate {
            year: shaped_year(s) as i32,
            month: shaped_month(s) as u32,
            day: shaped_day(s) as u32,
        })
    }
}

/// `n` (0..=99) written with exactly two digits.
pub open spec fn two_digit_text(n: int) -> Seq<char> {
    seq![digit_char(n / 10), digit_char(n % 10)]
}

/// `n` (0..=9999) written with exactly four digits.
pub open spec fn four_digit_text(n: int) -> Seq<char> {
    seq![digit_char(n / 1000), digit_char((n / 100) % 10), digit_char((n / 10) % 10), digit_char(n % 10)]
}

/// A date written as `MM-DD-YYYY`.
pub open spec fn date_text(d: CalendarDate) -> Seq<char> {
    two_digit_text(d.month as int) + seq!['-'] + two_digit_text(d.day as int) + seq!['-']
        + four_digit_text(d.year as int)
}

/// Formatting of a calendar date for display.
pub trait ToChronoDateFormatted {
    spec fn formattable(&self) -> bool;

    spec fn formatted(&self) -> Seq<char>;

    fn to_date_formatted(&self) -> (r: String)
        requires
            self.formattable(),
        ensures
            r@ == self.formatted(),
    ;
}

impl ToChronoDateFormatted for CalendarDate {
    open spec fn formattable(&self) -> bool {
        self.wf()
    }

    open spec fn formatted(&self) -> Seq<char> {
        date_text(*self)
    }

    fn to_date_formatted(&self) -> (r: String) {
        let mut out = String::new();
        push_digit(&mut out, self.month / 10);
        push_digit(&mut out, self.month % 10);
        push_hyphen(&mut out);
        push_digit(&mut out, self.day / 10);
        push_digit(&mut out, self.day % 10);
        push_hyphen(&mut out);
        let y = self.year as u32;
        push_digit(&mut out, y / 1000);
        push_digit(&mut out, (y / 100) % 10);
        push_digit(&mut out, (y / 10) % 10);
        push_digit(&mut out, y % 10);
        assert(out@ =~= date_text(*self));
        out
    }
}

fn push_hyphen(out: &mut String)
    ensures
        final(out)@ == old(out)@ + seq!['-'],
{
    proof {
        reveal_strlit("-");
    }
    out.append("-");
}

fn push_digit(out: &mut String, n: u32)
    requires
        n < 10,
    ensures
        final(out)@ == old(out)@ + seq![digit_char(n as int)],
{
    proof {
        reveal_strlit("0");
        reveal_strlit("1");
        reveal_strlit("2");
        reveal_strlit("3");
        reveal_strlit("4");
        reveal_strlit("5");
        reveal_strlit("6");
        reveal_strlit("7");
        reveal_strlit("8");
        reveal_strlit("9");
    }
    let text = match n {
        0 => "0",
        1 => "1",
        2 => "2",
        3 => "3",
        4 => "4",
        5 => "5",
        6 => "6",
        7 => "7",
        8 => "8",
        _ => "9",
    };
    out.append(text);
}

fn digit_at(s: &str, i: usize) -> (r: Option<u32>)
    requires
        i < s@.len(),
    ensures
        r == (if is_digit(s@[i as int]) { Some(digit_value(s@[i as int]) as u32) } else { None }),
{
    let c = s.get_char(i);
    if '0' <= c && c <= '9' {
        Some(c as u32 - 48)
    } else {
        None
    }
}

/// Reads a date argument of the form `MM-DD-YYYY` (two-digit month,
/// two-digit day, four-digit year) as the calendar day it names.
pub fn parse_date(arg: &str) -> (r: Result<CalendarDate, DateError>)
    ensures
        r == parsed_date(arg@),
        r matches Ok(d) ==> d.wf(),
{
    if arg.unicode_len() != 10 {
        return Err(DateError::Malformed);
    }
    let m1 = digit_at(arg, 0);
    let m0 = digit_at(arg, 1);
    let d1 = digit_at(arg, 3);
    let d0 = digit_at(arg, 4);
    let y3 = digit_at(arg, 6);
    let y2 = digit_at(arg, 7);
    let y1 = digit_at(arg, 8);
    let y0 = digit_at(arg, 9);
    if arg.get_char(2) != '-' || arg.get_char(5) != '-' {
        return Err(DateError::Malformed);
    }
    match (m1, m0, d1, d0, y3, y2, y1, y0) {
        (Some(m1), Some(m0), Some(d1), Some(d0), Some(y3), Some(y2), Some(y1), Some(y0)) => {
            let month = 10 * m1 + m0;
            let day = 10 * d1 + d0;
            let year = (1000 * y3 + 100 * y2 + 10 * y1 + y0) as i32;
            if chrono_date_exists(year, month, day) {
                Ok(CalendarDate { year, month, day })
            } else {
                Err(DateError::NoSuchDay)
            }
        },
        _ => Err(DateError::Malformed),
    }
}

/// Writing a valid date as `MM-DD-YYYY` and reading it back gives the same
/// date: the text form loses nothing.
pub proof fn lemma_parse_formatted_date(d: CalendarDate)
    requires
        d.wf(),
    ensures
        parsed_date(date_text(d)) == Ok::<CalendarDate, DateError>(d),
{
    let s = date_text(d);
    let m = d.month as int;
    let dd = d.day as int;
    let y = d.year as int;
    assert(s =~= seq![digit_char(m / 10), digit_char(m % 10), '-', digit_char(dd / 10), digit_char(dd % 10), '-',
        digit_char(y / 1000), digit_char((y / 100) % 10), digit_char((y / 10) % 10), digit_char(y % 10)]);
    lemma_digit_round_trip(m / 10);
    lemma_digit_round_trip(m % 10);
    lemma_digit_round_trip(dd / 10);
    lemma_digit_round_trip(dd % 10);
    lemma_digit_round_trip(y / 1000);
    lemma_digit_round_trip((y / 100) % 10);
    lemma_digit_round_trip((y / 10) % 10);
    lemma_digit_round_trip(y % 10);
    assert(1000 * (y / 1000) + 100 * ((y / 100) % 10) + 10 * ((y / 10) % 10) + y % 10 == y) by (nonlinear_arith)
        requires 0 <= y <= 9999;
}

proof fn lemma_digit_round_trip(n: int)
    requires
        0 <= n < 10,
    ensures
        is_digit(digit_char(n)),
        digit_value(digit_char(n)) == n,
{
}

} // verus!
