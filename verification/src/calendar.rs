//! Days and seconds since the Unix epoch.
use vstd::prelude::*;

verus! {

pub open spec fn is_leap(year: int) -> bool {
    year % 4 == 0 && (year % 100 != 0 || year % 400 == 0)
}

pub open spec fn year_len(year: int) -> int {
    if is_leap(year) {
        366
    } else {
        365
    }
}

pub open spec fn month_len(year: int, month: int) -> int {
    if month == 2 {
        if is_leap(year) {
            29
        } else {
            28
        }
    } else if month == 4 || month == 6 || month == 9 || month == 11 {
        30
    } else {
        31
    }
}

/// Days from 1 January 1970 to 1 January of the year; negative for earlier years.
pub open spec fn days_before_year(year: int) -> int
    decreases
            (if year >= 1970 {
                year - 1970
            } else {
                1970 - year
            }),
{
    if year == 1970 {
        0
    } else if year > 1970 {
        days_before_year(year - 1) + year_len(year - 1)
    } else {
        days_before_year(year + 1) - year_len(year)
    }
}

/// Days from 1 January to the first of the month.
pub open spec fn days_before_month(year: int, month: int) -> int
    decreases month,
{
    if month <= 1 {
        0
    } else {
        days_before_month(year, month - 1) + month_len(year, month - 1)
    }
}

/// Days from 1 January 1970. A day beyond the end of its month counts on into the next.
pub open spec fn days_since_epoch(year: int, month: int, day: int) -> int {
    days_before_year(year) + days_before_month(year, month) + day - 1
}

pub open spec fn seconds_since_epoch(
    year: int,
    month: int,
    day: int,
    hour: int,
    minute: int,
    second: int,
) -> int {
    days_since_epoch(year, month, day) * 86400 + hour * 3600 + minute * 60 + second
}

/// Leap years up to and with the year, counted from the year 1.
pub open spec fn leaps(year: int) -> int {
    year / 4 - year / 100 + year / 400
}

/// How many days the years before this one take, without counting them one by one.
pub proof fn lemma_days_before_year(year: int)
    ensures
        days_before_year(year) == 365 * (year - 1970) + leaps(year - 1) - 477,
    decreases
            (if year >= 1970 {
                year - 1970
            } else {
                1970 - year
            }),
{
    if year > 1970 {
        lemma_days_before_year(year - 1);
        lemma_leaps(year - 1);
    } else if year < 1970 {
        lemma_days_before_year(year + 1);
        lemma_leaps(year);
    }
}

pub proof fn lemma_leaps(year: int)
    ensures
        leaps(year) == leaps(year - 1) + (if is_leap(year) {
            1int
        } else {
            0
        }),
{
}

/// The months before this one, counted from 1 March by the fifths of a day that a month of the
/// five-month pattern 31, 30, 31, 30, 31 lasts over thirty.
pub proof fn lemma_days_before_month(year: int, month: int)
    requires
        1 <= month <= 12,
    ensures
        month > 2 ==> days_before_month(year, month) == 31 + month_len(year, 2) + (153 * (month - 3)
            + 2) / 5,
        month <= 2 ==> days_before_month(year, month) == (153 * (month + 9) + 2) / 5 - 306,
{
    reveal_with_fuel(days_before_month, 13);
}

/// A day count from the epoch that is not negative and below 50,000 lies in one of these years.
pub proof fn lemma_year_bounds(year: int, month: int, day: int)
    requires
        1 <= month <= 12,
        1 <= day <= 255,
        0 <= days_since_epoch(year, month, day) < 50_000,
    ensures
        1969 <= year <= 2107,
{
    lemma_days_before_year(year);
    lemma_days_before_month(year, month);
    let before = year - 1;
    assert(leaps(before) * 400 <= 97 * before + 800);
    assert(leaps(before) * 400 >= 97 * before - 800);
}

/// The days of whole years, counted in eras of 400 of them.
pub proof fn lemma_eras(year: int)
    ensures
        365 * year + leaps(year) == (year / 400) * 146097 + (year % 400) * 365 + (year % 400) / 4 - (
        year % 400) / 100,
{
    let era = year / 400;
    let yoe = year % 400;
    assert(year == 400 * era + yoe);
    assert(year / 4 == 100 * era + yoe / 4);
    assert(year / 100 == 4 * era + yoe / 100);
}

/// Days follow each other: the last of a month comes right before the first of the next, and the
/// last of a year right before the first of the next.
pub proof fn law_days_follow_each_other(year: int, month: int)
    requires
        1 <= month <= 12,
    ensures
        month < 12 ==> days_since_epoch(year, month + 1, 1) == days_since_epoch(
            year,
            month,
            month_len(year, month),
        ) + 1,
        days_since_epoch(year + 1, 1, 1) == days_since_epoch(year, 12, 31) + 1,
{
    lemma_days_before_year(year);
    lemma_days_before_year(year + 1);
    lemma_leaps(year);
    lemma_days_before_month(year, 12);
}

/// The count is the calendar's: it starts with 1 January 1970, and 400 years last 146,097 days.
pub proof fn law_count_starts_at_the_epoch(year: int)
    ensures
        days_since_epoch(1970, 1, 1) == 0,
        days_before_year(year + 400) == days_before_year(year) + 146_097,
{
    lemma_days_before_year(year);
    lemma_days_before_year(year + 400);
    lemma_eras(year - 1);
    lemma_eras(year + 399);
}

/// How long the months are, and which years have a 29 February: each month's first day lies as
/// many days past the one of the month before as the calendar says, and 1 January as many past
/// the one of the year before.
pub proof fn law_months_and_years_have_their_length(year: int)
    ensures
        ({
            let leap = year % 400 == 0 || (year % 4 == 0 && year % 100 != 0);
            let first = |m: int| days_since_epoch(year, m, 1);
            &&& first(2) - first(1) == 31
            &&& first(3) - first(2) == (if leap { 29int } else { 28 })
            &&& first(4) - first(3) == 31
            &&& first(5) - first(4) == 30
            &&& first(6) - first(5) == 31
            &&& first(7) - first(6) == 30
            &&& first(8) - first(7) == 31
            &&& first(9) - first(8) == 31
            &&& first(10) - first(9) == 30
            &&& first(11) - first(10) == 31
            &&& first(12) - first(11) == 30
            &&& days_since_epoch(year + 1, 1, 1) - first(12) == 31
        }),
{
    reveal_with_fuel(days_before_month, 13);
    lemma_days_before_year(year);
    lemma_days_before_year(year + 1);
    lemma_leaps(year);
}

/// Days are counted one by one: whatever the month, a later day of it lies just as many days
/// later.
pub proof fn law_days_are_counted_singly(year: int, month: int, day: int, more: int)
    ensures
        days_since_epoch(year, month, day + more) == days_since_epoch(year, month, day) + more,
{
}

/// Seconds are the day and the time of day: 86,400 make a day, and what is left of them is the
/// hour, the minute and the second.
pub proof fn law_seconds_hold_the_time_of_day(
    year: int,
    month: int,
    day: int,
    hour: int,
    minute: int,
    second: int,
)
    requires
        0 <= hour < 24,
        0 <= minute < 60,
        0 <= second < 60,
    ensures
        ({
            let s = seconds_since_epoch(year, month, day, hour, minute, second);
            &&& s / 86_400 == days_since_epoch(year, month, day)
            &&& s % 86_400 / 3_600 == hour
            &&& s % 3_600 / 60 == minute
            &&& s % 60 == second
        }),
{
}

/// An hour counts 3,600 seconds, a minute 60 and a second one, however many of them there are.
pub proof fn law_time_of_day_is_added(
    year: int,
    month: int,
    day: int,
    hour: int,
    minute: int,
    second: int,
)
    ensures
        seconds_since_epoch(year, month, day, hour, minute, second) - seconds_since_epoch(
            year,
            month,
            day,
            0,
            0,
            0,
        ) == 3_600 * hour + 60 * minute + second,
{
}

} // verus!
