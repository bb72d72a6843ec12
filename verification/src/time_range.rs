//! The calendar month around an instant, on a clock nine hours ahead of UTC.

use crate::calendar::{
    date_of_day, day_number, days_before_month, days_in_month, lemma_date_is_unique,
    lemma_day_has_month, lemma_month_of_day, lemma_months_apart, lemma_months_fill_year,
    lemma_range_of_seconds, lemma_year_length, lemma_years_in_order, month_of_day, MAX_SECONDS,
    MAX_YEAR, MIN_SECONDS, MIN_YEAR, SECONDS_PER_DAY,
};
use crate::clock::{
    date_exists, day_before, format_utc, local_year_month, resolve_local, shifted_day,
    shifted_second, utc_text,
};
use crate::error::MetricsNotifierError;
use vstd::prelude::*;

verus! {

/// How far the local clock is ahead of UTC, in seconds.
pub const OFFSET_SECONDS: i32 = 32_400;

/// A point in time that has a date, in whole seconds.
#[derive(Clone, Copy, Debug, PartialEq, Eq, Structural)]
pub struct Instant {
    seconds: i64,
}

/// The time from a start to an end that is not before it, both included.
#[derive(Clone, Copy, Debug, PartialEq, Eq, Structural)]
pub struct TimeRange {
    start: Instant,
    end: Instant,
}

impl View for Instant {
    type V = int;

    /// The seconds since 1 January 1970, 00:00:00 UTC.
    closed spec fn view(&self) -> int {
        self.seconds as int
    }
}

impl View for TimeRange {
    type V = (int, int);

    /// The start and the end, each in seconds.
    closed spec fn view(&self) -> (int, int) {
        (self.start@, self.end@)
    }
}

/// The first instant whose local month starts at an instant that has a date: the first
/// second of February of `MIN_YEAR` on the local clock.
pub const FIRST_MONTH_SECONDS: i64 = -8_334_598_582_800;

/// The last instant whose local month ends at an instant that has a date: the last
/// second of December of `MAX_YEAR` on the local clock.
pub const LAST_MONTH_SECONDS: i64 = 8_210_266_844_399;

/// The first second of a month on the local clock.
pub open spec fn month_start(year: int, month: int) -> int {
    day_number(year, month, 1) * SECONDS_PER_DAY - OFFSET_SECONDS
}

/// The last second of a month on the local clock.
pub open spec fn month_end(year: int, month: int) -> int {
    (day_number(year, month, 1) + days_in_month(year, month)) * SECONDS_PER_DAY - 1
        - OFFSET_SECONDS
}

/// The local month around an instant, from its first second to its last. There is none
/// for an instant without a date, nor where the month starts before the first instant
/// that has a date or ends after the last.
pub open spec fn month_range(seconds: int) -> Option<(int, int)> {
    let (year, month) = month_of_day(shifted_day(seconds, OFFSET_SECONDS as int));
    if MIN_SECONDS <= seconds <= MAX_SECONDS && MIN_SECONDS <= month_start(year, month)
        && month_end(year, month) <= MAX_SECONDS {
        Some((month_start(year, month), month_end(year, month)))
    } else {
        None
    }
}

/// A month is found for every instant from `FIRST_MONTH_SECONDS` to
/// `LAST_MONTH_SECONDS`, and for no other. Those are the instants whose local month lies
/// in a year that has dates and is not the January of `MIN_YEAR`.
pub proof fn lemma_month_range_exists(seconds: int)
    ensures
        month_range(seconds) is Some <==> FIRST_MONTH_SECONDS <= seconds <= LAST_MONTH_SECONDS,
        month_range(seconds) is Some ==> MIN_YEAR <= month_of_day(
            shifted_day(seconds, OFFSET_SECONDS as int),
        ).0 <= MAX_YEAR,
{
    let day = shifted_day(seconds, OFFSET_SECONDS as int);
    let (year, month) = month_of_day(day);
    lemma_day_has_month(day);
    lemma_range_of_seconds();
    lemma_months_fill_year(year);
    lemma_months_fill_year(MIN_YEAR as int);
    lemma_months_fill_year(MAX_YEAR as int);
    lemma_year_length(MAX_YEAR as int);
    assert(days_before_month(MIN_YEAR as int, 2) == 31) by {
        reveal_with_fuel(days_before_month, 3);
    }
    assert(day_number(MAX_YEAR as int, 12, 31) + 1 == day_number(MAX_YEAR + 1, 1, 1));
    if year <= MAX_YEAR {
        lemma_months_apart(year, month, MAX_YEAR + 1, 1);
    } else if year > MAX_YEAR + 1 {
        lemma_years_in_order(MAX_YEAR + 1, year);
    }
    if year < MIN_YEAR {
        lemma_months_apart(year, month, MIN_YEAR as int, 1);
    } else if year > MIN_YEAR || month > 1 {
        lemma_months_apart(MIN_YEAR as int, 1, year, month);
    }
}

/// The month found for an instant holds the instant. It starts at 00:00:00 on the first
/// day and ends at 23:59:59 on the last day of the instant's month on the local clock.
/// Its start and its end have dates.
pub proof fn lemma_month_range_is_month(seconds: int)
    requires
        month_range(seconds) is Some,
    ensures
        ({
            let (start, end) = month_range(seconds)->0;
            let month = month_of_day(shifted_day(seconds, OFFSET_SECONDS as int));
            let first = shifted_day(start, OFFSET_SECONDS as int);
            let last = shifted_day(end, OFFSET_SECONDS as int);
            &&& start <= seconds <= end
            &&& MIN_SECONDS <= start && end <= MAX_SECONDS
            &&& date_of_day(first) == (month.0, month.1, 1int)
            &&& shifted_second(start, OFFSET_SECONDS as int) == 0
            &&& date_of_day(last) == (month.0, month.1, days_in_month(month.0, month.1))
            &&& shifted_second(end, OFFSET_SECONDS as int) == SECONDS_PER_DAY - 1
        }),
{
    let day = shifted_day(seconds, OFFSET_SECONDS as int);
    let (year, month) = month_of_day(day);
    lemma_day_has_month(day);
    let first = day_number(year, month, 1);
    let last = first + days_in_month(year, month) - 1;
    assert(shifted_day(month_start(year, month), OFFSET_SECONDS as int) == first);
    assert(shifted_day(month_end(year, month), OFFSET_SECONDS as int) == last);
    lemma_month_of_day(first, year, month);
    lemma_month_of_day(last, year, month);
}

/// The month after a month that was found starts one second after that month ends, and
/// is found as well wherever it ends at an instant that has a date.
pub proof fn lemma_months_follow(seconds: int)
    requires
        month_range(seconds) matches Some(range) && range.1 < LAST_MONTH_SECONDS,
    ensures
        ({
            let range = month_range(seconds)->0;
            month_range(range.1 + 1) matches Some(next) && next.0 == range.1 + 1
        }),
{
    let day = shifted_day(seconds, OFFSET_SECONDS as int);
    let (year, month) = month_of_day(day);
    lemma_day_has_month(day);
    let next = month_end(year, month) + 1;
    let (next_year, next_month) = if month < 12 {
        (year, month + 1)
    } else {
        (year + 1, 1int)
    };
    lemma_year_length(year);
    lemma_months_fill_year(year);
    assert(days_before_month(year, month + 1) == days_before_month(year, month) + days_in_month(
        year,
        month,
    ));
    assert(day_number(next_year, next_month, 1) == day_number(year, month, 1) + days_in_month(
        year,
        month,
    ));
    assert(shifted_day(next, OFFSET_SECONDS as int) == day_number(next_year, next_month, 1));
    lemma_month_of_day(day_number(next_year, next_month, 1), next_year, next_month);
    lemma_month_range_exists(next);
}

impl Instant {
    #[verifier::type_invariant]
    spec fn has_date(&self) -> bool {
        MIN_SECONDS <= self.seconds <= MAX_SECONDS
    }

    /// The instant so many seconds from 1 January 1970, 00:00:00 UTC, if it has a date.
    pub fn from_timestamp(seconds: i64) -> (made: Option<Instant>)
        ensures
            made is Some <==> MIN_SECONDS <= seconds <= MAX_SECONDS,
            made matches Some(instant) ==> instant@ == seconds,
    {
        if MIN_SECONDS <= seconds && seconds <= MAX_SECONDS {
            Some(Instant { seconds })
        } else {
            None
        }
    }

    /// The seconds since 1 January 1970, 00:00:00 UTC.
    pub fn timestamp(&self) -> (seconds: i64)
        ensures
            seconds == self@,
            MIN_SECONDS <= seconds <= MAX_SECONDS,
    {
        proof {
            use_type_invariant(self);
        }
        self.seconds
    }

    /// The instant as `YYYY-MM-DDTHH:MM:SSZ`.
    pub fn to_text(&self) -> (text: String)
        ensures
            text@ == utc_text(self@),
    {
        proof {
            use_type_invariant(self);
        }
        format_utc(self.seconds)
    }
}

impl TimeRange {
    #[verifier::type_invariant]
    spec fn in_order(&self) -> bool {
        self.start.seconds <= self.end.seconds
    }

    /// The range from `start` to `end`, unless `end` is before `start`.
    pub fn new(start: Instant, end: Instant) -> (made: Option<TimeRange>)
        ensures
            made is Some <==> start@ <= end@,
            made matches Some(range) ==> range@ == (start@, end@),
    {
        if start.seconds <= end.seconds {
            Some(TimeRange { start, end })
        } else {
            None
        }
    }

    pub fn start(&self) -> (start: Instant)
        ensures
            start@ == self@.0,
            start@ <= self@.1,
    {
        proof {
            use_type_invariant(self);
        }
        self.start
    }

    pub fn end(&self) -> (end: Instant)
        ensures
            end@ == self@.1,
            self@.0 <= end@,
    {
        proof {
            use_type_invariant(self);
        }
        self.end
    }

    /// The last day of a month: the day before the first of the next month, which in
    /// December is the first of January a year on. The December of `MAX_YEAR` has no
    /// January after it that has a date, and has 31 days as every December has.
    pub fn last_day_of_month(year: i32, month: u32) -> (day: u32)
        requires
            MIN_YEAR <= year <= MAX_YEAR,
            1 <= month <= 12,
        ensures
            day == days_in_month(year as int, month as int),
    {
        let (next_year, next_month) = if date_exists(year, month + 1, 1) {
            (year, month + 1)
        } else {
            (year + 1, 1)
        };
        if !date_exists(next_year, next_month, 1) {
            return 31;
        }
        proof {
            lemma_year_length(year as int);
            lemma_months_fill_year(year as int);
            assert(days_before_month(year as int, month + 1) == days_before_month(
                year as int,
                month as int,
            ) + days_in_month(year as int, month as int));
            assert(day_number(next_year as int, next_month as int, 1) - 1 == day_number(
                year as int,
                month as int,
                days_in_month(year as int, month as int),
            ));
        }
        let before = day_before(next_year, next_month, 1);
        proof {
            lemma_date_is_unique(
                before.0 as int,
                before.1 as int,
                before.2 as int,
                year as int,
                month as int,
                days_in_month(year as int, month as int),
            );
        }
        before.2
    }

    /// The calendar month around `date_time` on the local clock, from its first second
    /// to its last.
    pub fn try_from(date_time: Instant) -> (result: Result<TimeRange, MetricsNotifierError>)
        ensures
            match result {
                Ok(range) => month_range(date_time@) == Some(range@),
                Err(error) => error == MetricsNotifierError::NoneValue && month_range(date_time@)
                    is None,
            },
            result is Ok <==> FIRST_MONTH_SECONDS <= date_time@ <= LAST_MONTH_SECONDS,
    {
        proof {
            use_type_invariant(&date_time);
            lemma_month_range_exists(date_time@);
        }
        let (year, month) = local_year_month(date_time.seconds, OFFSET_SECONDS);
        proof {
            let day = shifted_day(date_time@, OFFSET_SECONDS as int);
            lemma_month_of_day(day, year as int, month as int);
            lemma_range_of_seconds();
            lemma_months_fill_year(year as int);
            if year <= MAX_YEAR {
                lemma_months_apart(year as int, month as int, MAX_YEAR + 1, 1);
                lemma_year_length(MAX_YEAR as int);
                lemma_months_fill_year(MAX_YEAR as int);
            }
        }
        let start = match resolve_local(year, month, 1, 0, 0, 0, OFFSET_SECONDS) {
            Some(seconds) => seconds,
            None => {
                return Err(MetricsNotifierError::NoneValue);
            },
        };
        let last = TimeRange::last_day_of_month(year, month);
        let end = match resolve_local(year, month, last, 23, 59, 59, OFFSET_SECONDS) {
            Some(seconds) => seconds,
            None => {
                return Err(MetricsNotifierError::NoneValue);
            },
        };
        proof {
            lemma_month_range_is_month(date_time@);
        }
        Ok(TimeRange { start: Instant { seconds: start }, end: Instant { seconds: end } })
    }
}

} // verus!
