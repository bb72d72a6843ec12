//! What chrono computes for this crate: dates from seconds, seconds from dates, and the
//! text of an instant. Each function here is chrono's; its contract states the result
//! over the calendar of `crate::calendar`.

use crate::calendar::{
    date_of_day, day_number, in_month, in_range, MAX_SECONDS, MIN_SECONDS, MIN_YEAR,
    SECONDS_PER_DAY,
};
use chrono::{DateTime, Datelike, FixedOffset, NaiveDate, TimeZone, Utc};
use vstd::prelude::*;

verus! {

/// The seconds from midnight to the given time of day.
pub open spec fn second_of_day(hour: int, minute: int, second: int) -> int {
    hour * 3600 + minute * 60 + second
}

/// The day on which a clock that is `offset` seconds ahead shows the instant.
pub open spec fn shifted_day(seconds: int, offset: int) -> int {
    (seconds + offset) / (SECONDS_PER_DAY as int)
}

/// The seconds since midnight on a clock that is `offset` seconds ahead.
pub open spec fn shifted_second(seconds: int, offset: int) -> int {
    (seconds + offset) % (SECONDS_PER_DAY as int)
}

/// The character of one decimal digit.
pub open spec fn digit(n: int) -> char {
    seq!['0', '1', '2', '3', '4', '5', '6', '7', '8', '9'][n]
}

/// Two digits, the first of them a zero where `n` is below ten.
pub open spec fn two_digits(n: int) -> Seq<char> {
    seq![digit(n / 10), digit(n % 10)]
}

/// The digits of a number, without leading zeros.
pub open spec fn digits(n: int) -> Seq<char>
    decreases n,
{
    if n < 10 {
        seq![digit(n)]
    } else {
        digits(n / 10).push(digit(n % 10))
    }
}

/// A year in four digits. A year that four digits cannot hold, or before year 0, has
/// its sign in front, then its digits, four at the least.
pub open spec fn year_text(year: int) -> Seq<char> {
    if 0 <= year <= 9999 {
        two_digits(year / 100) + two_digits(year % 100)
    } else if year > 9999 {
        seq!['+'] + digits(year)
    } else if year > -1000 {
        seq!['-'] + two_digits(-year / 100) + two_digits(-year % 100)
    } else {
        seq!['-'] + digits(-year)
    }
}

/// An instant as `YYYY-MM-DDTHH:MM:SSZ`, read on the clock of UTC.
pub open spec fn utc_text(seconds: int) -> Seq<char> {
    let (year, month, day) = date_of_day(shifted_day(seconds, 0));
    let second = shifted_second(seconds, 0);
    year_text(year) + seq!['-'] + two_digits(month) + seq!['-'] + two_digits(day) + seq!['T']
        + two_digits(second / 3600) + seq![':'] + two_digits(second % 3600 / 60) + seq![':']
        + two_digits(second % 60) + seq!['Z']
}

/// `DateTime::from_timestamp`, then `with_timezone` with a `FixedOffset`, then `year` and
/// `month`: the year and month that a clock `offset` seconds ahead of UTC shows at the
/// instant. The shifted clock may show a day beyond the last date or before the first.
#[verifier::external_body]
pub(crate) fn local_year_month(seconds: i64, offset: i32) -> (found: (i32, u32))
    requires
        MIN_SECONDS <= seconds <= MAX_SECONDS,
        -SECONDS_PER_DAY < offset < SECONDS_PER_DAY,
    ensures
        in_month(shifted_day(seconds as int, offset as int), found.0 as int, found.1 as int),
{
    let zone = FixedOffset::east_opt(offset).unwrap();
    let local = DateTime::from_timestamp(seconds, 0).unwrap().with_timezone(&zone);
    (local.year(), local.month())
}

/// The instant at which a clock `offset` seconds ahead of UTC shows the given date and
/// time, in seconds.
pub open spec fn instant_of_local(
    year: int,
    month: int,
    day: int,
    hour: int,
    minute: int,
    second: int,
    offset: int,
) -> int {
    day_number(year, month, day) * SECONDS_PER_DAY + second_of_day(hour, minute, second) - offset
}

/// Whether the date and the time of day exist and their instant has a date.
pub open spec fn is_resolvable(
    year: int,
    month: int,
    day: int,
    hour: int,
    minute: int,
    second: int,
    offset: int,
) -> bool {
    &&& in_range(year, month, day)
    &&& 0 <= hour < 24
    &&& 0 <= minute < 60
    &&& 0 <= second < 60
    &&& MIN_SECONDS <= instant_of_local(year, month, day, hour, minute, second, offset)
        <= MAX_SECONDS
}

/// `NaiveDate::from_ymd_opt`, `and_hms_opt`, then `from_local_datetime` of a
/// `FixedOffset` and `single`: the instant at which a clock `offset` seconds ahead of
/// UTC shows the given date and time. There is none where the date or the time does not
/// exist, nor where chrono has no date for the instant.
#[verifier::external_body]
pub(crate) fn resolve_local(
    year: i32,
    month: u32,
    day: u32,
    hour: u32,
    minute: u32,
    second: u32,
    offset: i32,
) -> (resolved: Option<i64>)
    requires
        -SECONDS_PER_DAY < offset < SECONDS_PER_DAY,
    ensures
        resolved is Some <==> is_resolvable(
            year as int,
            month as int,
            day as int,
            hour as int,
            minute as int,
            second as int,
            offset as int,
        ),
        resolved matches Some(seconds) ==> seconds == instant_of_local(
            year as int,
            month as int,
            day as int,
            hour as int,
            minute as int,
            second as int,
            offset as int,
        ),
{
    let local = NaiveDate::from_ymd_opt(year, month, day)?.and_hms_opt(hour, minute, second)?;
    let zone = FixedOffset::east_opt(offset)?;
    let resolved = zone.from_local_datetime(&local).single()?;
    Some(resolved.with_timezone(&Utc).timestamp())
}

/// `NaiveDate::from_ymd_opt`: whether chrono has the date.
#[verifier::external_body]
pub(crate) fn date_exists(year: i32, month: u32, day: u32) -> (answer: bool)
    ensures
        answer == in_range(year as int, month as int, day as int),
{
    NaiveDate::from_ymd_opt(year, month, day).is_some()
}

/// `NaiveDate::pred_opt`: the date of the day before, which every date but the first
/// of all has.
#[verifier::external_body]
pub(crate) fn day_before(year: i32, month: u32, day: u32) -> (before: (i32, u32, u32))
    requires
        in_range(year as int, month as int, day as int),
        !(year == MIN_YEAR && month == 1 && day == 1),
    ensures
        in_range(before.0 as int, before.1 as int, before.2 as int),
        day_number(before.0 as int, before.1 as int, before.2 as int) == day_number(
            year as int,
            month as int,
            day as int,
        ) - 1,
{
    let date = NaiveDate::from_ymd_opt(year, month, day).unwrap();
    let before = date.pred_opt().unwrap();
    (before.year(), before.month(), before.day())
}

/// `DateTime::format` with the pattern `%Y-%m-%dT%H:%M:%SZ`, on the instant as UTC has
/// it.
#[verifier::external_body]
pub(crate) fn format_utc(seconds: i64) -> (text: String)
    requires
        MIN_SECONDS <= seconds <= MAX_SECONDS,
    ensures
        text@ == utc_text(seconds as int),
{
    let instant = DateTime::from_timestamp(seconds, 0).unwrap();
    instant.format("%Y-%m-%dT%H:%M:%SZ").to_string()
}

} // verus!
