//! Points in time and spans of time as plain integers.

use crate::text::{digits, push_number};
use vstd::prelude::*;
use vstd::string::*;

verus! {

/// A point in time: nanoseconds since the Unix epoch.
#[derive(Clone, Copy, Debug)]
pub struct Timestamp {
    pub nanos: u128,
}

pub const NANOS_PER_MILLI: u128 = 1_000_000;

pub const NANOS_PER_MICRO: u128 = 1_000;

impl Timestamp {
    /// The Unix epoch itself.
    pub fn epoch() -> (t: Timestamp)
        ensures
            t.nanos == 0,
    {
        Timestamp { nanos: 0 }
    }

    /// Whole milliseconds since the epoch.
    pub open spec fn spec_millis(self) -> u128 {
        self.nanos / NANOS_PER_MILLI
    }

    /// Whole milliseconds since the epoch.
    #[verifier::when_used_as_spec(spec_millis)]
    pub fn millis(self) -> (ms: u128)
        ensures
            ms == self.spec_millis(),
    {
        self.nanos / NANOS_PER_MILLI
    }
}

pub const NANOS_PER_SECOND: u128 = 1_000_000_000;

pub const SECONDS_PER_DAY: u128 = 86_400;

/// The year of the Unix epoch.
pub const EPOCH_YEAR: u128 = 1970;

/// A day of the Gregorian calendar.
#[derive(Clone, Copy, Debug)]
pub struct CivilDate {
    pub year: u128,
    pub month: u8,
    pub day: u8,
}

/// Whether a year has a 29th of February.
pub open spec fn is_leap_year(year: int) -> bool {
    year % 4 == 0 && (year % 100 != 0 || year % 400 == 0)
}

/// The number of leap years from year 1 up to, but without, `year`.
pub open spec fn leap_years_before(year: int) -> int {
    (year - 1) / 4 - (year - 1) / 100 + (year - 1) / 400
}

/// The number of days from the epoch to the first day of `year`.
pub open spec fn days_before_year(year: int) -> int {
    365 * (year - 1970) + leap_years_before(year) - leap_years_before(1970)
}

/// The number of days in a year.
pub open spec fn days_in_year(year: int) -> int {
    if is_leap_year(year) {
        366
    } else {
        365
    }
}

/// The number of days of a year that lie before the first day of `month`.
/// For a month after December it is the length of the year.
pub open spec fn days_before_month(leap: bool, month: int) -> int {
    let extra: int = if leap {
        1
    } else {
        0
    };
    if month <= 1 {
        0
    } else if month == 2 {
        31
    } else if month == 3 {
        59 + extra
    } else if month == 4 {
        90 + extra
    } else if month == 5 {
        120 + extra
    } else if month == 6 {
        151 + extra
    } else if month == 7 {
        181 + extra
    } else if month == 8 {
        212 + extra
    } else if month == 9 {
        243 + extra
    } else if month == 10 {
        273 + extra
    } else if month == 11 {
        304 + extra
    } else if month == 12 {
        334 + extra
    } else {
        365 + extra
    }
}

impl CivilDate {
    /// A day that the calendar has, in a year from the epoch on.
    pub open spec fn is_valid(self) -> bool {
        &&& self.year >= 1970
        &&& 1 <= self.month <= 12
        &&& 1 <= self.day
        &&& days_before_month(is_leap_year(self.year as int), self.month as int) + self.day
            <= days_before_month(is_leap_year(self.year as int), self.month + 1)
    }

    /// The number of days from the epoch to this day.
    pub open spec fn days_from_epoch(self) -> int {
        days_before_year(self.year as int) + days_before_month(
            is_leap_year(self.year as int),
            self.month as int,
        ) + self.day - 1
    }
}

/// A year ends where the next begins.
pub proof fn lemma_year_length(year: int)
    requires
        year >= 1,
    ensures
        days_before_year(year + 1) == days_before_year(year) + days_in_year(year),
{
}

/// Years begin in order: a later year begins after an earlier one has ended.
pub proof fn lemma_years_in_order(earlier: int, later: int)
    requires
        1 <= earlier < later,
    ensures
        days_before_year(earlier) + days_in_year(earlier) <= days_before_year(later),
    decreases later - earlier,
{
    lemma_year_length(earlier);
    if earlier + 1 < later {
        lemma_years_in_order(earlier + 1, later);
    }
}

/// No two days of the calendar are equally far from the epoch.
pub proof fn lemma_date_unique(a: CivilDate, b: CivilDate)
    requires
        a.is_valid(),
        b.is_valid(),
        a.days_from_epoch() == b.days_from_epoch(),
    ensures
        a == b,
{
    if a.year < b.year {
        lemma_years_in_order(a.year as int, b.year as int);
    } else if b.year < a.year {
        lemma_years_in_order(b.year as int, a.year as int);
    }
}

/// The day of the calendar that lies `days` days after the epoch.
pub open spec fn civil_from_days(days: nat) -> CivilDate {
    choose|date: CivilDate| date.is_valid() && date.days_from_epoch() == days
}

/// A point in time in text: the UTC date and time of day with milliseconds,
/// as `2020-01-31T23:59:59.999Z`. The time is cut to the millisecond, and a
/// year takes more than four digits where it needs them.
pub open spec fn time_text(time: Timestamp) -> Seq<char> {
    let seconds = (time.nanos / NANOS_PER_SECOND) as nat;
    let date = civil_from_days(seconds / SECONDS_PER_DAY as nat);
    let second_of_day = seconds % SECONDS_PER_DAY as nat;
    digits(date.year as nat, 10, 4) + "-"@ + digits(date.month as nat, 10, 2) + "-"@ + digits(
        date.day as nat,
        10,
        2,
    ) + "T"@ + digits(second_of_day / 3600, 10, 2) + ":"@ + digits(second_of_day / 60 % 60, 10, 2)
        + ":"@ + digits(second_of_day % 60, 10, 2) + "."@ + digits(
        (time.nanos % NANOS_PER_SECOND / NANOS_PER_MILLI) as nat,
        10,
        3,
    ) + "Z"@
}

/// The most days after the epoch that a timestamp can lie.
pub const MAX_DAYS: u128 = 3_938_453_320_844_195_178_974_243;

/// A year from the epoch on begins between 365 and 366 days per year after
/// the epoch.
pub proof fn lemma_year_start_bounds(year: int)
    requires
        year >= 1970,
    ensures
        365 * (year - 1970) <= days_before_year(year) <= 366 * (year - 1970),
    decreases year,
{
    if year > 1970 {
        lemma_year_start_bounds(year - 1);
        lemma_year_length(year - 1);
    }
}

/// The number of days from the epoch to the first day of `year`.
fn year_start(year: u128) -> (days: u128)
    requires
        1970 <= year,
        365 * (year - 1970) <= MAX_DAYS + 366,
    ensures
        days == days_before_year(year as int),
{
    let before = year - 1;
    365 * (year - 1970) + (before / 4 - before / 100 + before / 400) - 477
}

/// Whether a year has a 29th of February.
fn leap_year(year: u128) -> (leap: bool)
    ensures
        leap == is_leap_year(year as int),
{
    year % 4 == 0 && (year % 100 != 0 || year % 400 == 0)
}

/// The number of days of a year that lie before the first day of `month`.
fn month_start(leap: bool, month: u8) -> (days: u16)
    requires
        1 <= month <= 13,
    ensures
        days == days_before_month(leap, month as int),
{
    let extra: u16 = if leap {
        1
    } else {
        0
    };
    if month == 1 {
        0
    } else if month == 2 {
        31
    } else if month == 3 {
        59 + extra
    } else if month == 4 {
        90 + extra
    } else if month == 5 {
        120 + extra
    } else if month == 6 {
        151 + extra
    } else if month == 7 {
        181 + extra
    } else if month == 8 {
        212 + extra
    } else if month == 9 {
        243 + extra
    } else if month == 10 {
        273 + extra
    } else if month == 11 {
        304 + extra
    } else if month == 12 {
        334 + extra
    } else {
        365 + extra
    }
}

/// The year in which the day `days` days after the epoch lies.
fn year_from_days(days: u128) -> (year: u128)
    requires
        days <= MAX_DAYS,
    ensures
        year >= 1970,
        365 * (year - 1970) <= days,
        days_before_year(year as int) <= days < days_before_year(year + 1),
{
    // A first guess from the mean length of a year, then a step or two.
    let guess: u128 = days * 400 / 146097;
    assert(365 * guess <= days);
    let mut year: u128 = 1970 + guess;
    while year > 1970 && year_start(year) > days
        invariant
            1970 <= year,
            365 * (year - 1970) <= days,
            days <= MAX_DAYS,
        decreases year,
    {
        year -= 1;
    }
    proof {
        lemma_year_start_bounds(year as int);
    }
    while year_start(year + 1) <= days
        invariant
            1970 <= year,
            365 * (year - 1970) <= days,
            days_before_year(year as int) <= days,
            days <= MAX_DAYS,
        decreases days - days_before_year(year as int),
    {
        proof {
            lemma_year_length(year as int);
            lemma_year_start_bounds(year + 1);
        }
        year += 1;
    }
    year
}

/// The month in which the day of a year lies, counted from zero.
fn month_from_day_of_year(leap: bool, day_of_year: u16) -> (month: u8)
    requires
        day_of_year < days_before_month(leap, 13),
    ensures
        1 <= month <= 12,
        days_before_month(leap, month as int) <= day_of_year < days_before_month(leap, month + 1),
{
    let mut month: u8 = 1;
    while month_start(leap, month + 1) <= day_of_year
        invariant
            1 <= month <= 12,
            days_before_month(leap, month as int) <= day_of_year,
            day_of_year < days_before_month(leap, 13),
        decreases 12 - month,
    {
        month += 1;
    }
    month
}

/// The day of the calendar that lies `days` days after the epoch.
pub fn date_from_days(days: u128) -> (date: CivilDate)
    requires
        days <= MAX_DAYS,
    ensures
        date.is_valid(),
        date.days_from_epoch() == days,
        date == civil_from_days(days as nat),
{
    let year = year_from_days(days);
    proof {
        lemma_year_length(year as int);
    }
    let leap = leap_year(year);
    let day_of_year: u16 = (days - year_start(year)) as u16;
    let month = month_from_day_of_year(leap, day_of_year);
    let day: u8 = (day_of_year - month_start(leap, month) + 1) as u8;
    let date = CivilDate { year: year, month: month, day: day };
    proof {
        let n = days as nat;
        assert(date.is_valid() && date.days_from_epoch() == n);
        let chosen = choose|other: CivilDate| other.is_valid() && other.days_from_epoch() == n;
        assert(chosen == civil_from_days(n));
        lemma_date_unique(date, chosen);
    }
    date
}

/// Writes a point in time as the UTC date and time of day with milliseconds.
pub fn time_to_string(time: Timestamp) -> (text: String)
    ensures
        text@ == time_text(time),
{
    let seconds = time.nanos / NANOS_PER_SECOND;
    let date = date_from_days(seconds / SECONDS_PER_DAY);
    let second_of_day = seconds % SECONDS_PER_DAY;
    let mut text = String::new();
    push_number(&mut text, date.year, 10, 4);
    text.append("-");
    push_number(&mut text, date.month as u128, 10, 2);
    text.append("-");
    push_number(&mut text, date.day as u128, 10, 2);
    text.append("T");
    push_number(&mut text, second_of_day / 3600, 10, 2);
    text.append(":");
    push_number(&mut text, second_of_day / 60 % 60, 10, 2);
    text.append(":");
    push_number(&mut text, second_of_day % 60, 10, 2);
    text.append(".");
    push_number(&mut text, time.nanos % NANOS_PER_SECOND / NANOS_PER_MILLI, 10, 3);
    text.append("Z");
    assert(text@ =~= time_text(time));
    text
}

} // verus!
