//! Days since the Unix epoch and dates of the Gregorian calendar.

use vstd::prelude::*;

verus! {

/// The year has a 29th of February.
pub open spec fn is_leap(y: int) -> bool {
    y % 4 == 0 && (y % 100 != 0 || y % 400 == 0)
}

/// Number of days of a month.
pub open spec fn days_in_month(y: int, m: int) -> int {
    if m == 2 {
        if is_leap(y) {
            29
        } else {
            28
        }
    } else if m == 4 || m == 6 || m == 9 || m == 11 {
        30
    } else {
        31
    }
}

/// Number of days of a year that lie before a month.
pub open spec fn days_before_month(y: int, m: int) -> int
    decreases m,
{
    if m <= 1 {
        0
    } else {
        days_before_month(y, m - 1) + days_in_month(y, m - 1)
    }
}

/// Days from the Unix epoch to the first of January of a year: 365 per year and one
/// more for each leap year in between.
pub open spec fn days_before_year(y: int) -> int {
    365 * (y - 1970) + ((y - 1) / 4 - 492) - ((y - 1) / 100 - 19) + ((y - 1) / 400 - 4)
}

/// Days from the Unix epoch to a date.
pub open spec fn day_number(y: int, m: int, d: int) -> int {
    days_before_year(y) + days_before_month(y, m) + d - 1
}

/// The date exists.
pub open spec fn is_date(y: int, m: int, d: int) -> bool {
    1 <= m <= 12 && 1 <= d <= days_in_month(y, m)
}

/// A year lasts 366 days if it is a leap year and 365 days if not, and the epoch is
/// day zero.
pub proof fn law_years_follow_each_other(y: int)
    ensures
        days_before_year(1970) == 0,
        days_before_year(y + 1) == days_before_year(y) + (if is_leap(y) {
            366int
        } else {
            365int
        }),
        days_before_month(y, 13) == (if is_leap(y) {
            366int
        } else {
            365int
        }),
{
    lemma_month_table(y);
    lemma_leap_step(y);
}

proof fn lemma_leap_step(y: int)
    ensures
        y / 4 - (y - 1) / 4 == (if y % 4 == 0 { 1int } else { 0int }),
        y / 100 - (y - 1) / 100 == (if y % 100 == 0 { 1int } else { 0int }),
        y / 400 - (y - 1) / 400 == (if y % 400 == 0 { 1int } else { 0int }),
{
}

/// The days before each month.
proof fn lemma_month_table(y: int)
    ensures
        ({
            let l = if is_leap(y) { 1int } else { 0int };
            &&& days_before_month(y, 1) == 0
            &&& days_before_month(y, 2) == 31
            &&& days_before_month(y, 3) == 59 + l
            &&& days_before_month(y, 4) == 90 + l
            &&& days_before_month(y, 5) == 120 + l
            &&& days_before_month(y, 6) == 151 + l
            &&& days_before_month(y, 7) == 181 + l
            &&& days_before_month(y, 8) == 212 + l
            &&& days_before_month(y, 9) == 243 + l
            &&& days_before_month(y, 10) == 273 + l
            &&& days_before_month(y, 11) == 304 + l
            &&& days_before_month(y, 12) == 334 + l
            &&& days_before_month(y, 13) == 365 + l
        }),
{
    reveal_with_fuel(days_before_month, 14);
}

/// A day belongs to one date only.
pub proof fn law_dates_are_unique(y1: int, m1: int, d1: int, y2: int, m2: int, d2: int)
    requires
        is_date(y1, m1, d1),
        is_date(y2, m2, d2),
        day_number(y1, m1, d1) == day_number(y2, m2, d2),
    ensures
        y1 == y2,
        m1 == m2,
        d1 == d2,
{
    lemma_month_table(y1);
    lemma_month_table(y2);
    if y1 < y2 {
        lemma_years_grow(y1 + 1, y2);
        law_years_follow_each_other(y1);
    } else if y2 < y1 {
        lemma_years_grow(y2 + 1, y1);
        law_years_follow_each_other(y2);
    }
}

/// Later days have later dates: the year counts first, then the month, then the day.
pub proof fn law_dates_are_ordered(y1: int, m1: int, d1: int, y2: int, m2: int, d2: int)
    requires
        is_date(y1, m1, d1),
        is_date(y2, m2, d2),
        day_number(y1, m1, d1) < day_number(y2, m2, d2),
    ensures
        y1 < y2 || (y1 == y2 && (m1 < m2 || (m1 == m2 && d1 < d2))),
{
    lemma_month_table(y1);
    lemma_month_table(y2);
    if y2 < y1 {
        lemma_years_grow(y2 + 1, y1);
        law_years_follow_each_other(y2);
    }
}

/// Later years begin later.
pub proof fn lemma_years_grow(a: int, b: int)
    requires
        a <= b,
    ensures
        days_before_year(a) <= days_before_year(b),
    decreases b - a,
{
    if a < b {
        lemma_years_grow(a, b - 1);
        law_years_follow_each_other(b - 1);
    }
}

/// Days from the epoch to the first of March, in terms of the position of the year
/// within its era of 400 years.
proof fn lemma_march_first(era: int, yoe: int)
    requires
        0 <= yoe < 400,
    ensures
        day_number(yoe + 400 * era, 3, 1) == era * 146097 + 365 * yoe + yoe / 4 - yoe / 100
            - 719468,
        day_number(yoe + 400 * era + 1, 1, 1) == era * 146097 + 365 * yoe + yoe / 4 - yoe / 100
            - 719468 + 306,
{
    let y = yoe + 400 * era;
    lemma_month_table(y);
    lemma_month_table(y + 1);
    lemma_leap_step(y);
    assert(y / 4 == yoe / 4 + 100 * era);
    assert(y / 100 == yoe / 100 + 4 * era);
    assert(y / 400 == era);
}

/// The year within its era, found from the day within the era.
#[verifier::rlimit(30)]
proof fn lemma_year_of_era(doe: int, yoe: int)
    requires
        0 <= doe < 146097,
        yoe == (doe - doe / 1460 + doe / 36524 - doe / 146096) / 365,
    ensures
        0 <= yoe < 400,
        0 <= doe - (365 * yoe + yoe / 4 - yoe / 100) <= 365,
        doe - (365 * yoe + yoe / 4 - yoe / 100) == 365 ==> is_leap(yoe + 1),
{
}

/// The month and day of a year that begins in March, found from the day within
/// that year.
proof fn lemma_month_of_year(doy: int, mp: int)
    requires
        0 <= doy <= 365,
        mp == (5 * doy + 2) / 153,
    ensures
        0 <= mp <= 11,
        ({
            let start = (153 * mp + 2) / 5;
            let next = (153 * (mp + 1) + 2) / 5;
            &&& start <= doy
            &&& mp < 11 ==> doy < next
        }),
        mp >= 10 <==> doy >= 306,
{
}

/// Days from the first of March to the first of a later month.
proof fn lemma_march_table(mp: int)
    requires
        0 <= mp <= 12,
    ensures
        (153 * mp + 2) / 5 == (if mp == 0 {
            0int
        } else if mp == 1 {
            31
        } else if mp == 2 {
            61
        } else if mp == 3 {
            92
        } else if mp == 4 {
            122
        } else if mp == 5 {
            153
        } else if mp == 6 {
            184
        } else if mp == 7 {
            214
        } else if mp == 8 {
            245
        } else if mp == 9 {
            275
        } else if mp == 10 {
            306
        } else if mp == 11 {
            337
        } else {
            367
        }),
{
}

/// The date that the parts computed from an era, a year of the era and a day of the
/// year stand for.
proof fn lemma_civil_parts(era: int, yoe: int, doy: int, mp: int, d: int)
    requires
        0 <= yoe < 400,
        0 <= doy <= 365,
        doy == 365 ==> is_leap(yoe + 1),
        mp == (5 * doy + 2) / 153,
        d == doy - (153 * mp + 2) / 5 + 1,
    ensures
        ({
            let m = if mp < 10 { mp + 3 } else { mp - 9 };
            let y = yoe + 400 * era + (if m <= 2 { 1int } else { 0int });
            &&& 0 <= mp <= 11
            &&& is_date(y, m, d)
            &&& day_number(y, m, d) == era * 146097 + 365 * yoe + yoe / 4 - yoe / 100 + doy
                - 719468
        }),
{
    lemma_month_of_year(doy, mp);
    lemma_march_table(mp);
    lemma_march_table(mp + 1);
    lemma_march_first(era, yoe);
    let y = yoe + 400 * era;
    lemma_month_table(y);
    lemma_month_table(y + 1);
    lemma_leap_in_era(era, yoe + 1);
}

/// Whether a year is a leap year depends only on its position within the era.
proof fn lemma_leap_in_era(era: int, y: int)
    ensures
        is_leap(y + 400 * era) == is_leap(y),
{
}

/// Date of a day, given as days since the Unix epoch.
pub fn civil_from_days(days: i64) -> (r: (i64, u32, u32))
    requires
        days <= i64::MAX - 719468,
    ensures
        is_date(r.0 as int, r.1 as int, r.2 as int),
        day_number(r.0 as int, r.1 as int, r.2 as int) == days,
{
    let z: i64 = days + 719_468;
    let era: i64 = if z >= 0 {
        z / 146_097
    } else {
        -((-(z + 1)) / 146_097) - 1
    };
    assert(0 <= z - era * 146_097 < 146_097);
    let doe: u32 = (z - era * 146_097) as u32;
    let yoe: u32 = (doe - doe / 1460 + doe / 36524 - doe / 146_096) / 365;
    proof {
        lemma_year_of_era(doe as int, yoe as int);
    }
    let doy: u32 = doe - (365 * yoe + yoe / 4 - yoe / 100);
    let mp: u32 = (5 * doy + 2) / 153;
    proof {
        lemma_month_of_year(doy as int, mp as int);
        lemma_civil_parts(
            era as int,
            yoe as int,
            doy as int,
            mp as int,
            doy - (153 * mp + 2) / 5 + 1,
        );
    }
    let d: u32 = doy - (153 * mp + 2) / 5 + 1;
    let m: u32 = if mp < 10 {
        mp + 3
    } else {
        mp - 9
    };
    let y: i64 = yoe as i64 + era * 400;
    let year: i64 = if m <= 2 {
        y + 1
    } else {
        y
    };
    (year, m, d)
}

/// Days from the Unix epoch to a date; zero for dates before the epoch. A day beyond
/// the end of the month counts into the next.
#[verifier::rlimit(30)]
pub fn days_from_civil(y: i64, m: u32, d: u32) -> (r: u64)
    requires
        -25_000_000_000_000_000 <= y <= 25_000_000_000_000_000,
        1 <= m <= 12,
        1 <= d <= 31,
    ensures
        r == (if day_number(y as int, m as int, d as int) < 0 {
            0
        } else {
            day_number(y as int, m as int, d as int)
        }),
{
    let march_year: i64 = if m <= 2 {
        y - 1
    } else {
        y
    };
    let era: i64 = if march_year >= 0 {
        march_year / 400
    } else {
        -((-(march_year + 1)) / 400) - 1
    };
    assert(0 <= march_year - era * 400 < 400);
    let yoe: u32 = (march_year - era * 400) as u32;
    let mp: u32 = if m > 2 {
        m - 3
    } else {
        m + 9
    };
    let doy: u32 = (153 * mp + 2) / 5 + d - 1;
    let doe: u32 = yoe * 365 + yoe / 4 - yoe / 100 + doy;
    let days: i64 = era * 146_097 + doe as i64 - 719_468;
    proof {
        lemma_march_table(mp as int);
        lemma_march_first(era as int, yoe as int);
        lemma_month_table(march_year as int);
        lemma_month_table(march_year + 1);
    }
    if days < 0 {
        return 0;
    }
    days as u64
}

/// The calendar: every fourth year is a leap year, but of the full centuries only every
/// fourth; February has one day more then; April, June, September and November have 30
/// days, and the other months 31.
pub proof fn law_calendar(y: int, m: int)
    requires
        1 <= m <= 12,
    ensures
        y % 400 == 0 ==> is_leap(y),
        y % 100 == 0 && y % 400 != 0 ==> !is_leap(y),
        y % 4 == 0 && y % 100 != 0 ==> is_leap(y),
        y % 4 != 0 ==> !is_leap(y),
        days_in_month(y, 2) == 28 || days_in_month(y, 2) == 29,
        is_leap(y) <==> days_in_month(y, 2) == 29,
        m == 4 || m == 6 || m == 9 || m == 11 ==> days_in_month(y, m) == 30,
        m == 1 || m == 3 || m == 5 || m == 7 || m == 8 || m == 10 || m == 12 ==> days_in_month(y, m)
            == 31,
{
}

/// Days are counted one by one from the first of January 1970: the day after a date has
/// the next number, over the ends of months and years.
pub proof fn law_days_follow_each_other(y: int, m: int, d: int)
    requires
        is_date(y, m, d),
    ensures
        day_number(1970, 1, 1) == 0,
        d < days_in_month(y, m) ==> is_date(y, m, d + 1) && day_number(y, m, d + 1) == day_number(
            y,
            m,
            d,
        ) + 1,
        d == days_in_month(y, m) && m < 12 ==> is_date(y, m + 1, 1) && day_number(y, m + 1, 1)
            == day_number(y, m, d) + 1,
        d == days_in_month(y, m) && m == 12 ==> is_date(y + 1, 1, 1) && day_number(y + 1, 1, 1)
            == day_number(y, m, d) + 1,
{
    law_years_follow_each_other(y);
    law_years_follow_each_other(1970);
    reveal_with_fuel(days_before_month, 14);
}

/// Only days that the calendar has are dates.
pub proof fn law_dates_lie_in_their_month(y: int, m: int, d: int)
    ensures
        is_date(y, m, d) <==> 1 <= m && m <= 12 && 1 <= d && d <= days_in_month(y, m),
{
}

} // verus!
