//! The proleptic Gregorian calendar, counted in days from 1 January 1970.

use vstd::prelude::*;

verus! {

/// The first year that has dates.
pub const MIN_YEAR: i32 = -262_143;

/// The last year that has dates.
pub const MAX_YEAR: i32 = 262_142;

pub const SECONDS_PER_DAY: i64 = 86_400;

/// The first second that has a date: midnight before 1 January of `MIN_YEAR`.
pub const MIN_SECONDS: i64 = -8_334_601_228_800;

/// The last second that has a date: the one before midnight after 31 December of
/// `MAX_YEAR`.
pub const MAX_SECONDS: i64 = 8_210_266_876_799;

pub open spec fn is_leap_year(year: int) -> bool {
    year % 4 == 0 && (year % 100 != 0 || year % 400 == 0)
}

pub open spec fn days_in_month(year: int, month: int) -> int {
    if month == 2 {
        if is_leap_year(year) {
            29
        } else {
            28
        }
    } else if month == 4 || month == 6 || month == 9 || month == 11 {
        30
    } else {
        31
    }
}

pub open spec fn days_in_year(year: int) -> int {
    if is_leap_year(year) {
        366
    } else {
        365
    }
}

/// The leap years from year 1 to `year`, counted backwards where `year` is before 1.
pub open spec fn leap_years_through(year: int) -> int {
    year / 4 - year / 100 + year / 400
}

/// The days from 1 January 1970 to 1 January of `year`.
pub open spec fn days_before_year(year: int) -> int {
    365 * (year - 1970) + leap_years_through(year - 1) - leap_years_through(1969)
}

/// The days of `year` that lie before the first of `month`.
pub open spec fn days_before_month(year: int, month: int) -> int
    decreases month,
{
    if month <= 1 {
        0
    } else {
        days_before_month(year, month - 1) + days_in_month(year, month - 1)
    }
}

/// Whether the calendar has this day, in whatever year.
pub open spec fn is_date(year: int, month: int, day: int) -> bool {
    1 <= month <= 12 && 1 <= day <= days_in_month(year, month)
}

/// Whether the date is one that has a representation.
pub open spec fn in_range(year: int, month: int, day: int) -> bool {
    MIN_YEAR <= year <= MAX_YEAR && is_date(year, month, day)
}

/// The days from 1 January 1970 to the given date.
pub open spec fn day_number(year: int, month: int, day: int) -> int {
    days_before_year(year) + days_before_month(year, month) + day - 1
}

/// Whether the day with this number lies in the given month.
pub open spec fn in_month(day: int, year: int, month: int) -> bool {
    1 <= month <= 12 && day_number(year, month, 1) <= day < day_number(year, month, 1)
        + days_in_month(year, month)
}

/// The year and month in which the day with this number lies.
pub open spec fn month_of_day(day: int) -> (int, int) {
    choose|month: (int, int)| in_month(day, month.0, month.1)
}

/// The year, month and day of the day with this number.
pub open spec fn date_of_day(day: int) -> (int, int, int) {
    let (year, month) = month_of_day(day);
    (year, month, day - day_number(year, month, 1) + 1)
}

/// A year ends where the next one starts.
pub proof fn lemma_year_length(year: int)
    ensures
        days_before_year(year + 1) == days_before_year(year) + days_in_year(year),
{
}

/// The months of a year add up to the year.
pub proof fn lemma_months_fill_year(year: int)
    ensures
        days_before_month(year, 12) + 31 == days_in_year(year),
        forall|month: int|
            1 <= month <= 12 ==> 0 <= #[trigger] days_before_month(year, month)
                && days_before_month(year, month) + days_in_month(year, month) <= days_in_year(
                year,
            ),
{
    reveal_with_fuel(days_before_month, 13);
}

/// Later years start later, by no less than 365 days a year.
pub proof fn lemma_years_in_order(earlier: int, later: int)
    requires
        earlier <= later,
    ensures
        days_before_year(earlier) + 365 * (later - earlier) <= days_before_year(later),
    decreases later - earlier,
{
    if earlier < later {
        lemma_years_in_order(earlier, later - 1);
        lemma_year_length(later - 1);
    }
}

/// A month that starts earlier in the year ends no later than the other starts.
pub proof fn lemma_months_in_order(year: int, earlier: int, later: int)
    requires
        1 <= earlier < later <= 12,
    ensures
        days_before_month(year, earlier) + days_in_month(year, earlier) <= days_before_month(
            year,
            later,
        ),
{
    reveal_with_fuel(days_before_month, 13);
}

/// A month ends before any later month starts.
pub proof fn lemma_months_apart(year: int, month: int, later_year: int, later_month: int)
    requires
        1 <= month <= 12,
        1 <= later_month <= 12,
        year < later_year || (year == later_year && month < later_month),
    ensures
        day_number(year, month, 1) + days_in_month(year, month) <= day_number(
            later_year,
            later_month,
            1,
        ),
{
    lemma_months_fill_year(year);
    lemma_months_fill_year(later_year);
    if year < later_year {
        lemma_years_in_order(year + 1, later_year);
        lemma_year_length(year);
    } else {
        lemma_months_in_order(year, month, later_month);
    }
}

/// A day lies in one month only.
pub proof fn lemma_month_is_unique(day: int, year: int, month: int, other_year: int, other_month: int)
    requires
        in_month(day, year, month),
        in_month(day, other_year, other_month),
    ensures
        year == other_year,
        month == other_month,
{
    if year < other_year || (year == other_year && month < other_month) {
        lemma_months_apart(year, month, other_year, other_month);
    } else if other_year < year || (year == other_year && other_month < month) {
        lemma_months_apart(other_year, other_month, year, month);
    }
}

/// Every day lies in a month.
pub proof fn lemma_day_has_month(day: int)
    ensures
        in_month(day, month_of_day(day).0, month_of_day(day).1),
    decreases
            if day >= 0 {
                day
            } else {
                -day
            },
{
    reveal_with_fuel(days_before_month, 13);
    let found: (int, int) = if day == 0 {
        (1970, 1)
    } else if day > 0 {
        lemma_day_has_month(day - 1);
        let (year, month) = month_of_day(day - 1);
        lemma_year_length(year);
        if day < day_number(year, month, 1) + days_in_month(year, month) {
            (year, month)
        } else if month < 12 {
            (year, month + 1)
        } else {
            (year + 1, 1)
        }
    } else {
        lemma_day_has_month(day + 1);
        let (year, month) = month_of_day(day + 1);
        lemma_year_length(year - 1);
        if day >= day_number(year, month, 1) {
            (year, month)
        } else if month > 1 {
            (year, month - 1)
        } else {
            (year - 1, 12)
        }
    };
    assert(in_month(day, found.0, found.1));
}

/// The month found for a day is the month of that day.
pub proof fn lemma_month_of_day(day: int, year: int, month: int)
    requires
        in_month(day, year, month),
    ensures
        month_of_day(day) == (year, month),
{
    let found = month_of_day(day);
    assert(in_month(day, (year, month).0, (year, month).1));
    lemma_month_is_unique(day, year, month, found.0, found.1);
}

/// The date found for a day number is the date with that number.
pub proof fn lemma_date_of_day(year: int, month: int, day: int)
    requires
        is_date(year, month, day),
    ensures
        date_of_day(day_number(year, month, day)) == (year, month, day),
{
    lemma_month_of_day(day_number(year, month, day), year, month);
}

/// Two dates with one day number are one date.
pub proof fn lemma_date_is_unique(
    year: int,
    month: int,
    day: int,
    other_year: int,
    other_month: int,
    other_day: int,
)
    requires
        is_date(year, month, day),
        is_date(other_year, other_month, other_day),
        day_number(year, month, day) == day_number(other_year, other_month, other_day),
    ensures
        year == other_year,
        month == other_month,
        day == other_day,
{
    lemma_date_of_day(year, month, day);
    lemma_date_of_day(other_year, other_month, other_day);
}

/// The seconds that have a date run from the first day of `MIN_YEAR` through the last
/// day of `MAX_YEAR`.
pub proof fn lemma_range_of_seconds()
    ensures
        MIN_SECONDS == day_number(MIN_YEAR as int, 1, 1) * SECONDS_PER_DAY,
        MAX_SECONDS == day_number(MAX_YEAR as int, 12, 31) * SECONDS_PER_DAY + SECONDS_PER_DAY - 1,
{
    reveal_with_fuel(days_before_month, 13);
}

} // verus!
