//! Dates of the proleptic Gregorian calendar, as numbers of days since the
//! epoch (1970-01-01), and back.

use crate::reals::Real64;
use vstd::prelude::*;

verus! {

/// Milliseconds in a day.
pub const DAY_MS: u64 = 86_400_000;

/// The pattern of `60.0`.
pub const SIXTY: u64 = 0x404e_0000_0000_0000;

/// Years of 366 days.
pub open spec fn leap(y: int) -> bool {
    y % 4 == 0 && (y % 100 != 0 || y % 400 == 0)
}

/// Days in a month.
pub open spec fn month_len(y: int, m: int) -> int {
    if m == 2 {
        if leap(y) {
            29
        } else {
            28
        }
    } else if m == 4 || m == 6 || m == 9 || m == 11 {
        30
    } else {
        31
    }
}

/// Leap years from year 1 up to, and without, year `y`.
pub open spec fn leaps_before(y: int) -> int {
    (y - 1) / 4 - (y - 1) / 100 + (y - 1) / 400
}

/// The number of the first day of a year.
pub open spec fn year_start(y: int) -> int {
    365 * (y - 1970) + leaps_before(y) - leaps_before(1970)
}

/// Days of a year before one of its months.
pub open spec fn month_start(y: int, m: int) -> int
    decreases m,
{
    if m <= 1 {
        0
    } else {
        month_start(y, m - 1) + month_len(y, m - 1)
    }
}

/// The number of a day, counted from the epoch.
pub open spec fn day_number(y: int, m: int, d: int) -> int {
    year_start(y) + month_start(y, m) + d - 1
}

/// A date that the calendar has.
pub open spec fn is_date(y: int, m: int, d: int) -> bool {
    1 <= m <= 12 && 1 <= d <= month_len(y, m)
}

/// The date of a day number.
pub open spec fn date_of_day(z: int) -> (int, int, int) {
    choose|c: (int, int, int)| #[trigger] falls_on(c, z)
}

/// A date and its day number.
pub open spec fn falls_on(c: (int, int, int), z: int) -> bool {
    is_date(c.0, c.1, c.2) && day_number(c.0, c.1, c.2) == z
}

/// A day number has one date only.
proof fn lemma_one_date(c: (int, int, int), z: int)
    requires
        falls_on(c, z),
    ensures
        date_of_day(z) == c,
{
    let o = date_of_day(z);
    assert(falls_on(o, z));
    if o != c {
        if c.0 < o.0 || (c.0 == o.0 && c.1 < o.1) || (c.0 == o.0 && c.1 == o.1 && c.2 < o.2) {
            law_dates_in_order(c.0, c.1, c.2, o.0, o.1, o.2);
        } else {
            law_dates_in_order(o.0, o.1, o.2, c.0, c.1, c.2);
        }
    }
}

/// Days of a year before one of its months, all twelve written out.
proof fn lemma_month_starts(y: int)
    ensures
        month_start(y, 1) == 0,
        month_start(y, 2) == 31,
        month_start(y, 3) == 31 + month_len(y, 2),
        month_start(y, 4) == 62 + month_len(y, 2),
        month_start(y, 5) == 92 + month_len(y, 2),
        month_start(y, 6) == 123 + month_len(y, 2),
        month_start(y, 7) == 153 + month_len(y, 2),
        month_start(y, 8) == 184 + month_len(y, 2),
        month_start(y, 9) == 215 + month_len(y, 2),
        month_start(y, 10) == 245 + month_len(y, 2),
        month_start(y, 11) == 276 + month_len(y, 2),
        month_start(y, 12) == 306 + month_len(y, 2),
        month_start(y, 13) == 337 + month_len(y, 2),
{
    reveal_with_fuel(month_start, 14);
}

/// How the leap rule looks from one year to the next.
proof fn lemma_leap_step(y: int)
    ensures
        year_start(y + 1) == year_start(y) + if leap(y) {
            366int
        } else {
            365int
        },
{
}

/// The leap rule repeats every 400 years.
proof fn lemma_leap_cycle(era: int, k: int)
    ensures
        leap(era * 400 + k) == leap(k),
{
    vstd::arithmetic::div_mod::lemma_mod_multiples_vanish(era * 100, k, 4);
    vstd::arithmetic::div_mod::lemma_mod_multiples_vanish(era * 4, k, 100);
    vstd::arithmetic::div_mod::lemma_mod_multiples_vanish(era, k, 400);
}

/// The day number, with the year taken to begin in March.
proof fn lemma_march_years(y: int, m: int, d: int, era: int, yoe: int, mp: int)
    requires
        1 <= m <= 12,
        0 <= yoe < 400,
        era * 400 + yoe == if m <= 2 {
            y - 1
        } else {
            y
        },
        mp == if m <= 2 {
            m + 9
        } else {
            m - 3
        },
    ensures
        day_number(y, m, d) == era * 146097 + yoe * 365 + yoe / 4 - yoe / 100 + (153 * mp + 2) / 5
            + d - 1 - 719468,
{
    lemma_month_starts(y);
    let q = era * 400 + yoe;
    assert(q / 4 == era * 100 + yoe / 4);
    assert(q / 100 == era * 4 + yoe / 100);
    assert(q / 400 == era);
    lemma_leap_step(q);
    lemma_leap_step(y);
}

/// Days from the epoch to a date. The day may lie outside its month: it then
/// counts on into the next, or back into the one before.
pub fn days_from_civil(y: i64, m: u32, d: u32) -> (r: i64)
    requires
        -0x1_0000_0000 <= y <= 0x1_0000_0000,
        1 <= m <= 12,
    ensures
        r == day_number(y as int, m as int, d as int),
{
    let y2: i64 = if m <= 2 {
        y - 1
    } else {
        y
    };
    let era: i64 = if y2 >= 0 {
        y2 / 400
    } else {
        -((399 - y2) / 400)
    };
    let yoe: i64 = y2 - era * 400;
    let mp: i64 = (m as i64 + 9) % 12;
    let doy: i64 = (153 * mp + 2) / 5 + d as i64 - 1;
    let doe: i64 = yoe * 365 + yoe / 4 - yoe / 100 + doy;
    proof {
        lemma_march_years(y as int, m as int, d as int, era as int, yoe as int, mp as int);
    }
    era * 146097 + doe - 719468
}

/// The year within its cycle of 400, and the day within its year, of a day
/// within its cycle; years begin in March.
proof fn lemma_year_of_cycle(doe: int, yoe: int, doy: int)
    requires
        0 <= doe <= 146096,
        yoe == (doe - doe / 1460 + doe / 36524 - doe / 146096) / 365,
        doy == doe - (365 * yoe + yoe / 4 - yoe / 100),
    ensures
        0 <= yoe <= 399,
        0 <= doy <= 365,
        doy == 365 ==> leap(yoe + 1),
{
    let c = doe / 36524;
    let a = doe / 1460;
    let q = yoe / 4;
    assert(0 <= c <= 4);
    assert(0 <= a <= 100);
}

/// The month and the day within it of a day of a year that begins in March.
proof fn lemma_month_of_year(doy: int, mp: int, d: int)
    requires
        0 <= doy <= 365,
        mp == (5 * doy + 2) / 153,
        d == doy - (153 * mp + 2) / 5 + 1,
    ensures
        0 <= mp <= 11,
        1 <= d <= 31,
        mp == 1 || mp == 3 || mp == 6 || mp == 8 ==> d <= 30,
        mp == 11 ==> d <= 29,
        mp == 11 && d == 29 ==> doy == 365,
{
}

/// The date of a day within its cycle of years that begin in March.
proof fn lemma_date_of_cycle(y: int, m: int, d: int, era: int, yoe: int, doy: int, mp: int)
    requires
        0 <= yoe <= 399,
        0 <= doy <= 365,
        doy == 365 ==> leap(yoe + 1),
        mp == (5 * doy + 2) / 153,
        d == doy - (153 * mp + 2) / 5 + 1,
        m == if mp < 10 {
            mp + 3
        } else {
            mp - 9
        },
        y == era * 400 + yoe + if m <= 2 {
            1int
        } else {
            0int
        },
    ensures
        is_date(y, m, d),
        day_number(y, m, d) == era * 146097 + yoe * 365 + yoe / 4 - yoe / 100 + doy - 719468,
{
    lemma_month_of_year(doy, mp, d);
    assert(day_number(y, m, d) == era * 146097 + yoe * 365 + yoe / 4 - yoe / 100 + (153 * mp + 2)
        / 5 + d - 1 - 719468) by {
        lemma_march_years(y, m, d, era, yoe, mp);
    }
    assert(d <= month_len(y, m)) by {
        if doy == 365 {
            lemma_leap_cycle(era, yoe + 1);
        }
    }
}

/// The date of a day number.
pub fn civil_from_days(z: i64) -> (r: (i64, u32, u32))
    requires
        -0x1_0000_0000_0000 <= z <= 0x1_0000_0000_0000,
    ensures
        is_date(r.0 as int, r.1 as int, r.2 as int),
        day_number(r.0 as int, r.1 as int, r.2 as int) == z,
        (r.0 as int, r.1 as int, r.2 as int) == date_of_day(z as int),
        z >= 0 ==> r.0 >= 1970,
{
    let s: i64 = z + 719_468;
    let era: i64 = if s >= 0 {
        s / 146_097
    } else {
        -((146_096 - s) / 146_097)
    };
    let doe: i64 = s - era * 146_097;
    let yoe: i64 = (doe - doe / 1460 + doe / 36_524 - doe / 146_096) / 365;
    proof {
        lemma_year_of_cycle(
            doe as int,
            yoe as int,
            doe as int - (365 * yoe as int + yoe as int / 4 - yoe as int / 100),
        );
    }
    let doy: i64 = doe - (365 * yoe + yoe / 4 - yoe / 100);
    let mp: i64 = (5 * doy + 2) / 153;
    proof {
        lemma_month_of_year(doy as int, mp as int, doy as int - (153 * mp as int + 2) / 5 + 1);
    }
    let d: u32 = (doy - (153 * mp + 2) / 5 + 1) as u32;
    let m: u32 = if mp < 10 {
        (mp + 3) as u32
    } else {
        (mp - 9) as u32
    };
    let y: i64 = yoe + era * 400 + if m <= 2 {
        1
    } else {
        0
    };
    proof {
        lemma_date_of_cycle(y as int, m as int, d as int, era as int, yoe as int, doy as int, mp as int);
        lemma_one_date((y as int, m as int, d as int), z as int);
        if y < 1970 {
            law_dates_in_order(y as int, m as int, d as int, 1970, 1, 1);
            assert(day_number(1970, 1, 1) == 0) by {
                lemma_month_starts(1970);
            }
        }
    }
    (y, m, d)
}

/// Whether the calendar has a date.
fn has_date(year: i32, month: u32, day: u32) -> (r: bool)
    ensures
        r == is_date(year as int, month as int, day as int),
{
    let y: i64 = year as i64;
    let in_leap_year: bool = y % 4 == 0 && (y % 100 != 0 || y % 400 == 0);
    let last: u32 = if month == 2 {
        if in_leap_year {
            29
        } else {
            28
        }
    } else if month == 4 || month == 6 || month == 9 || month == 11 {
        30
    } else {
        31
    };
    1 <= month && month <= 12 && 1 <= day && day <= last
}

/// The instant of a date and a time of day, in milliseconds since the epoch;
/// nothing for a date that the calendar does not have or a time of day out of
/// range, and nothing before the epoch.
///
/// `second` is the seconds as read, and `second_ms` the same in whole
/// milliseconds.
pub fn civil_to_unix_ms(
    year: i32,
    month: u32,
    day: u32,
    hour: u32,
    minute: u32,
    second: Real64,
    second_ms: u64,
) -> (r: Option<u64>)
    requires
        second_ms <= 60_000,
    ensures
        r == instant(
            year as int,
            month as int,
            day as int,
            hour as int,
            minute as int,
            second,
            second_ms as int,
        ),
{
    if !has_date(year, month, day) {
        return None;
    }
    if hour >= 24 || minute >= 60 || !(Real64(0).is_at_most(second) && second.is_below(
        Real64(SIXTY),
    )) {
        return None;
    }
    let days: i64 = days_from_civil(year as i64, month, day);
    if days < 0 {
        return None;
    }
    let ms_of_day: u64 = (hour as u64 * 60 + minute as u64) * 60_000 + second_ms;
    let ms: u128 = days as u128 * DAY_MS as u128 + ms_of_day as u128;
    if ms > u64::MAX as u128 {
        Some(u64::MAX)
    } else {
        Some(ms as u64)
    }
}

/// The instant of a date and a time of day; the largest number there is where
/// it does not fit.
pub open spec fn instant(
    year: int,
    month: int,
    day: int,
    hour: int,
    minute: int,
    second: Real64,
    second_ms: int,
) -> Option<u64> {
    let days = day_number(year, month, day);
    let ms = days * DAY_MS + (hour * 60 + minute) * 60_000 + second_ms;
    if !is_date(year, month, day) {
        None
    } else if hour >= 24 || minute >= 60 || !(Real64(0).at_most(second) && second.below(
        Real64(SIXTY),
    )) {
        None
    } else if days < 0 {
        None
    } else if ms > u64::MAX {
        Some(u64::MAX)
    } else {
        Some(ms as u64)
    }
}

/// Day numbers begin at the epoch and count every day once: the day after the
/// last of a month is the first of the next, and the day after the last of a
/// year is the first of the next.
pub proof fn law_days_are_consecutive(y: int, m: int)
    requires
        1 <= m <= 12,
    ensures
        day_number(1970, 1, 1) == 0,
        m < 12 ==> day_number(y, m + 1, 1) == day_number(y, m, month_len(y, m)) + 1,
        m == 12 ==> day_number(y + 1, 1, 1) == day_number(y, m, month_len(y, m)) + 1,
{
    lemma_month_starts(1970);
    lemma_month_starts(y);
    lemma_month_starts(y + 1);
    lemma_leap_step(y);
}

proof fn lemma_years_in_order(a: int, b: int)
    requires
        a < b,
    ensures
        year_start(a + 1) <= year_start(b),
    decreases b - a,
{
    if a + 1 < b {
        lemma_years_in_order(a + 1, b);
        lemma_leap_step(a + 1);
    }
}

proof fn lemma_months_in_order(y: int, a: int, b: int)
    requires
        1 <= a < b,
    ensures
        month_start(y, a) + month_len(y, a) <= month_start(y, b),
    decreases b - a,
{
    if a + 1 < b {
        lemma_months_in_order(y, a, b - 1);
    }
}

/// An earlier date has a smaller number, so two dates never share one.
pub proof fn law_dates_in_order(y: int, m: int, d: int, y2: int, m2: int, d2: int)
    requires
        is_date(y, m, d),
        is_date(y2, m2, d2),
        y < y2 || (y == y2 && m < m2) || (y == y2 && m == m2 && d < d2),
    ensures
        day_number(y, m, d) < day_number(y2, m2, d2),
{
    if y < y2 {
        lemma_years_in_order(y, y2);
        lemma_leap_step(y);
        lemma_month_starts(y);
        lemma_month_starts(y2);
        lemma_months_in_order(y, m, 13);
        if m2 > 1 {
            lemma_months_in_order(y2, 1, m2);
        }
    } else if m < m2 {
        lemma_months_in_order(y, m, m2);
    }
}

/// Every day has its date.
pub proof fn law_every_day_has_a_date(z: int)
    ensures
        falls_on(date_of_day(z), z),
{
    let t = z + 719_468;
    let era = t / 146_097;
    let doe = t % 146_097;
    let yoe = (doe - doe / 1460 + doe / 36_524 - doe / 146_096) / 365;
    let doy = doe - (365 * yoe + yoe / 4 - yoe / 100);
    let mp = (5 * doy + 2) / 153;
    let d = doy - (153 * mp + 2) / 5 + 1;
    let m = if mp < 10 {
        mp + 3
    } else {
        mp - 9
    };
    let y = era * 400 + yoe + if m <= 2 {
        1int
    } else {
        0int
    };
    lemma_year_of_cycle(doe, yoe, doy);
    lemma_date_of_cycle(y, m, d, era, yoe, doy, mp);
    assert(falls_on((y, m, d), z));
}

/// The date of a day number is the date that has it.
pub proof fn law_date_comes_back(y: int, m: int, d: int)
    requires
        is_date(y, m, d),
    ensures
        date_of_day(day_number(y, m, d)) == (y, m, d),
{
    assert(falls_on((y, m, d), day_number(y, m, d)));
    lemma_one_date((y, m, d), day_number(y, m, d));
}

/// A later day has a later date.
pub proof fn law_days_in_order(z: int, z2: int)
    requires
        z < z2,
    ensures
        ({
            let (y, m, d) = date_of_day(z);
            let (y2, m2, d2) = date_of_day(z2);
            y < y2 || (y == y2 && m < m2) || (y == y2 && m == m2 && d < d2)
        }),
{
    law_every_day_has_a_date(z);
    law_every_day_has_a_date(z2);
    let (y, m, d) = date_of_day(z);
    let (y2, m2, d2) = date_of_day(z2);
    if !(y < y2 || (y == y2 && m < m2) || (y == y2 && m == m2 && d < d2)) {
        if (y, m, d) != (y2, m2, d2) {
            law_dates_in_order(y2, m2, d2, y, m, d);
        }
    }
}

/// Instants are as far apart as their dates and times of day: a day is
/// 86 400 000 milliseconds, an hour 3 600 000 and a minute 60 000. The first
/// instant of the epoch is zero.
#[verifier::rlimit(40)]
pub proof fn law_instants_are_apart(
    a: (int, int, int, int, int, Real64, int),
    b: (int, int, int, int, int, Real64, int),
)
    requires
        instant(a.0, a.1, a.2, a.3, a.4, a.5, a.6) matches Some(t) && t < u64::MAX,
        instant(b.0, b.1, b.2, b.3, b.4, b.5, b.6) matches Some(t) && t < u64::MAX,
        a.3 >= 0 && a.4 >= 0 && a.6 >= 0,
        b.3 >= 0 && b.4 >= 0 && b.6 >= 0,
    ensures
        instant(b.0, b.1, b.2, b.3, b.4, b.5, b.6)->0 - instant(
            a.0,
            a.1,
            a.2,
            a.3,
            a.4,
            a.5,
            a.6,
        )->0 == (day_number(b.0, b.1, b.2) - day_number(a.0, a.1, a.2)) * 86_400_000 + (b.3 - a.3)
            * 3_600_000 + (b.4 - a.4) * 60_000 + (b.6 - a.6),
        instant(1970, 1, 1, 0, 0, Real64(0), 0) == Some(0u64),
{
    lemma_month_starts(1970);
}

/// An instant is given exactly for a date that the calendar has, from the epoch
/// on, and a time of day: hours below 24, minutes and seconds below 60.
#[verifier::rlimit(40)]
pub proof fn law_instants_are_given(
    year: int,
    month: int,
    day: int,
    hour: int,
    minute: int,
    second: Real64,
    second_ms: int,
)
    ensures
        instant(year, month, day, hour, minute, second, second_ms) is Some <==> {
            &&& 1 <= month <= 12
            &&& 1 <= day <= 31
            &&& month == 4 || month == 6 || month == 9 || month == 11 ==> day <= 30
            &&& month == 2 ==> day <= 29 && (day == 29 ==> year % 4 == 0 && (year % 100 != 0 || year
                % 400 == 0))
            &&& year >= 1970
            &&& hour < 24
            &&& minute < 60
            &&& Real64(0).at_most(second) && second.below(Real64(0x404e_0000_0000_0000))
        },
{
    law_days_are_consecutive(1970, 1);
    if is_date(year, month, day) {
        if year < 1970 {
            law_dates_in_order(year, month, day, 1970, 1, 1);
        } else if (year, month, day) != (1970int, 1int, 1int) {
            law_dates_in_order(1970, 1, 1, year, month, day);
        }
    }
}

} // verus!
