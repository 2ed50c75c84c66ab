//! Instants and durations, the calendar, and the range in which they hold.

use vstd::prelude::*;

verus! {

/// A point in time, in nanoseconds since the Unix epoch.
pub type Instant = i128;

pub const NANOS: i128 = 1_000_000_000;

/// One day in nanoseconds.
pub const DAY: i128 = 86_400_000_000_000;

/// The first second of the calendar: 1 January of the year -262143.
pub const FIRST_SECOND: i64 = -8_334_601_228_800;

/// The last second of the calendar: 31 December of the year 262142.
pub const LAST_SECOND: i64 = 8_210_266_876_799;

/// The whole second that an instant falls in.
pub open spec fn second_of(t: Instant) -> int {
    t as int / 1_000_000_000
}

/// An instant that the calendar holds.
pub open spec fn on_calendar(t: Instant) -> bool {
    FIRST_SECOND <= second_of(t) <= LAST_SECOND
}

/// The whole second that an instant falls in.
pub fn timestamp(t: Instant) -> (r: i64)
    requires
        on_calendar(t),
    ensures
        r == second_of(t),
{
    if t >= 0 {
        (t / NANOS) as i64
    } else {
        let below: i128 = (-(t + 1)) / NANOS;
        assert(t as int / 1_000_000_000 == -(below as int) - 1) by (nonlinear_arith)
            requires
                t < 0,
                below as int == (-(t as int + 1)) / 1_000_000_000,
        ;
        (-below - 1) as i64
    }
}

/// The durations that `chrono::TimeDelta` holds, in whole seconds.
pub open spec fn holds_seconds(seconds: int) -> bool {
    -9_223_372_036_854_775 <= seconds <= 9_223_372_036_854_775
}

/// `chrono::TimeDelta::try_seconds`: the duration of that many seconds, given
/// back in seconds, or nothing where it is above `i64::MAX` milliseconds
/// either way.
#[verifier::external_body]
pub(crate) fn try_seconds(seconds: i64) -> (r: Option<i64>)
    ensures
        r == (if holds_seconds(seconds as int) {
            Some(seconds)
        } else {
            None
        }),
{
    chrono::TimeDelta::try_seconds(seconds).map(|duration| duration.num_seconds())
}

/// The fields of a point in time that a cron schedule looks at.
#[derive(Clone, Copy, Debug, PartialEq, Eq, Structural)]
pub struct Civil {
    pub minute: u32,
    pub hour: u32,
    pub day: u32,
    pub month: u32,
    /// Counted from Sunday.
    pub weekday: u32,
}

/// The day of the 400-year cycle of the Gregorian calendar that a day counted
/// from the epoch is, from 1 March on: the epoch is 719468 days after 1 March
/// of the year 0, and a cycle has 146097 days.
pub open spec fn day_of_cycle(epoch_day: int) -> int {
    (epoch_day + 719468) % 146097
}

/// The year of its cycle that a day of a cycle is in: every fourth year has a
/// leap day, but every hundredth only where it ends the cycle.
pub open spec fn year_of_cycle(day: int) -> int {
    (day - day / 1460 + day / 36524 - day / 146096) / 365
}

/// The day of the year, from 1 March on.
pub open spec fn day_of_year(epoch_day: int) -> int {
    let day = day_of_cycle(epoch_day);
    let year = year_of_cycle(day);
    day - (365 * year + year / 4 - year / 100)
}

/// The months since March that begin on or before a day of the year: five
/// months have 153 days.
pub open spec fn month_of_year(day: int) -> int {
    (5 * day + 2) / 153
}

/// The day of the month and the month that a day counted from the epoch has in
/// the proleptic Gregorian calendar.
pub open spec fn civil_date(epoch_day: int) -> (u32, u32) {
    let day = day_of_year(epoch_day);
    let month = month_of_year(day);
    (
        (day - (153 * month + 2) / 5 + 1) as u32,
        (if month < 10 {
            month + 3
        } else {
            month - 9
        }) as u32,
    )
}

/// The civil fields of a second counted from the epoch.
pub open spec fn civil_of(second: int) -> Civil {
    Civil {
        minute: ((second / 60) % 60) as u32,
        hour: ((second / 3600) % 24) as u32,
        day: civil_date(second / 86400).0,
        month: civil_date(second / 86400).1,
        weekday: ((second / 86400 + 4) % 7) as u32,
    }
}

/// `chrono::DateTime::from_timestamp`, read field by field: minute, hour and
/// weekday follow from the count of seconds (the epoch was a Thursday), day
/// and month are those of the proleptic Gregorian calendar.
#[verifier::external_body]
pub(crate) fn civil(second: i64) -> (r: Civil)
    requires
        FIRST_SECOND <= second <= LAST_SECOND,
    ensures
        r.minute == (second as int / 60) % 60,
        r.hour == (second as int / 3600) % 24,
        (r.day, r.month) == civil_date(second as int / 86400),
        r.weekday == (second as int / 86400 + 4) % 7,
{
    let t = chrono::DateTime::from_timestamp(second, 0).expect("a second on the calendar");
    Civil {
        minute: chrono::Timelike::minute(&t),
        hour: chrono::Timelike::hour(&t),
        day: chrono::Datelike::day(&t),
        month: chrono::Datelike::month(&t),
        weekday: chrono::Datelike::weekday(&t).num_days_from_sunday(),
    }
}

/// A date is on the calendar: a day from 1 to 31 of a month from 1 to 12.
pub proof fn dates_are_on_the_calendar(epoch_day: int)
    ensures
        1 <= civil_date(epoch_day).0 <= 31,
        1 <= civil_date(epoch_day).1 <= 12,
{
    let cycle = day_of_cycle(epoch_day);
    let year = year_of_cycle(cycle);
    let day = day_of_year(epoch_day);
    assert(0 <= cycle < 146097);
    assert(0 <= year < 400);
    assert(0 <= day <= 365);
}

/// The calendar repeats after 400 years.
pub proof fn calendar_repeats(epoch_day: int)
    ensures
        civil_date(epoch_day + 146097) == civil_date(epoch_day),
{
    assert((epoch_day + 146097 + 719468) % 146097 == (epoch_day + 719468) % 146097);
}

/// The first of March of a year, in days since the first of January of 1970.
pub open spec fn march_first(year: int) -> int {
    365 * year + year / 4 - year / 100 + year / 400 - 719468
}

/// Whether a year has a day more.
pub open spec fn leaps(year: int) -> bool {
    year % 4 == 0 && (year % 100 != 0 || year % 400 == 0)
}

/// The days of a month, in a year with or without a day more.
pub open spec fn month_length(month: int, leap: bool) -> int {
    if month == 2 {
        if leap {
            29
        } else {
            28
        }
    } else if month == 4 || month == 6 || month == 9 || month == 11 {
        30
    } else {
        31
    }
}


proof fn lemma_year_of_cycle(k: int, d: int)
    requires
        0 <= k < 400,
        0 <= d < 365 || (d == 365 && leaps(k + 1)),
    ensures
        0 <= 365 * k + k / 4 - k / 100 + d < 146097,
        year_of_cycle(365 * k + k / 4 - k / 100 + d) == k,
{
}

/// A year goes from one first of March to the next, and is a day longer where
/// it ends in a February of twenty-nine days; each first of March is one.
pub proof fn years_go_from_march_to_march(year: int)
    ensures
        march_first(year + 1) - march_first(year) == if leaps(year + 1) {
            366int
        } else {
            365
        },
        civil_date(march_first(year)) == (1u32, 3u32),
        march_first(1969) == -306,
{
    dates_within_a_year(year, 0);
}

/// The date of a day of a year that is counted from the first of March.
pub open spec fn date_in_year(day: int) -> (u32, u32) {
    let month = month_of_year(day);
    (
        (day - (153 * month + 2) / 5 + 1) as u32,
        (if month < 10 {
            month + 3
        } else {
            month - 9
        }) as u32,
    )
}

/// A day of a year, counted from its first of March, is in the month that it
/// falls in.
pub proof fn dates_within_a_year(year: int, d: int)
    requires
        0 <= d < 365 || (d == 365 && leaps(year + 1)),
    ensures
        civil_date(march_first(year) + d).1 as int == if d < 306 {
            (5 * d + 2) / 153 + 3
        } else {
            (5 * d + 2) / 153 - 9
        },
        civil_date(march_first(year) + d) == date_in_year(d),
{
    let k = year % 400;
    let c = year / 400;
    assert(year == 400 * c + k);
    let doc = 365 * k + k / 4 - k / 100 + d;
    assert(leaps(year + 1) ==> leaps(k + 1));
    lemma_year_of_cycle(k, d);
    assert(year / 4 == 100 * c + k / 4);
    assert(year / 100 == 4 * c + k / 100);
    assert(march_first(year) + d + 719468 == 146097 * c + doc);
    assert((146097 * c + doc) % 146097 == doc);
}

proof fn lemma_month_steps(d: int, leap: bool)
    requires
        0 <= d < 364 || (d == 364 && leap),
    ensures
        ({
            let m = month_of_year(d);
            let n = month_of_year(d + 1);
            let day = d - (153 * m + 2) / 5 + 1;
            let next_day = d + 1 - (153 * n + 2) / 5 + 1;
            let month = if m < 10 {
                m + 3
            } else {
                m - 9
            };
            &&& 0 <= m <= 11
            &&& 1 <= day <= month_length(month, leap)
            &&& day < month_length(month, leap) ==> n == m && next_day == day + 1
            &&& day == month_length(month, leap) ==> n == m + 1 && next_day == 1
        }),
{
}

/// The day after the last of a month is the first of the next, and the day
/// after any other is the next of the same.
pub proof fn days_follow_each_other(year: int, d: int)
    requires
        0 <= d < 365 || (d == 365 && leaps(year + 1)),
    ensures
        ({
            let (day, month) = civil_date(march_first(year) + d);
            let (next_day, next_month) = civil_date(march_first(year) + d + 1);
            let length = month_length(month as int, leaps(year + 1));
            &&& 1 <= day <= length
            &&& 1 <= month <= 12
            &&& day < length ==> next_day == day + 1 && next_month == month
            &&& day == length ==> next_day == 1 && next_month == if month == 12 {
                1
            } else {
                month + 1
            }
        }),
{
    let leap = leaps(year + 1);
    let next = march_first(year) + d + 1;
    dates_within_a_year(year, d);
    if d < 364 || (d == 364 && leap) {
        dates_within_a_year(year, d + 1);
        assert(civil_date(next) == date_in_year(d + 1));
    } else {
        years_go_from_march_to_march(year);
        years_go_from_march_to_march(year + 1);
        assert(next == march_first(year + 1));
    }
    lemma_next_date(civil_date(march_first(year) + d), civil_date(next), d, leap);
}

proof fn lemma_next_date(today: (u32, u32), next: (u32, u32), d: int, leap: bool)
    requires
        0 <= d < 365 || (d == 365 && leap),
        today == date_in_year(d),
        next == if d < 364 || (d == 364 && leap) {
            date_in_year(d + 1)
        } else {
            (1u32, 3u32)
        },
    ensures
        1 <= today.0 <= month_length(today.1 as int, leap),
        1 <= today.1 <= 12,
        today.0 < month_length(today.1 as int, leap) ==> next.0 == today.0 + 1 && next.1
            == today.1,
        today.0 == month_length(today.1 as int, leap) ==> next.0 == 1 && next.1 == if today.1
            == 12 {
            1
        } else {
            today.1 + 1
        },
{
    if d < 364 || (d == 364 && leap) {
        lemma_month_steps(d, leap);
    } else {
        assert(date_in_year(364) == (28u32, 2u32));
        assert(date_in_year(365) == (29u32, 2u32));
    }
}

/// The time of day and the day of the week follow from the seconds; the first
/// of January of 1970 was a Thursday.
pub proof fn times_are_told_from_seconds(day: int, hour: int, minute: int, second: int)
    requires
        0 <= hour < 24,
        0 <= minute < 60,
        0 <= second < 60,
    ensures
        ({
            let t = civil_of(86400 * day + 3600 * hour + 60 * minute + second);
            &&& t.minute == minute
            &&& t.hour == hour
            &&& t.day == civil_date(day).0
            &&& t.month == civil_date(day).1
            &&& t.weekday == (day + 4) % 7
        }),
{
    let s = 86400 * day + 3600 * hour + 60 * minute + second;
    assert(s / 86400 == day);
    assert((s / 3600) % 24 == hour);
    assert((s / 60) % 60 == minute);
}

/// A second is a thousand million of the units in which times are counted.
pub proof fn seconds_are_counted_down(t: Instant, second: int, rest: int)
    requires
        t == 1_000_000_000 * second + rest,
        0 <= rest < 1_000_000_000,
    ensures
        second_of(t) == second,
        on_calendar(t) <==> -8_334_601_228_800 <= second <= 8_210_266_876_799,
{
}

} // verus!
