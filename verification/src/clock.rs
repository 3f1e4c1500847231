//! Dates and ages.

use crate::text::{dec, dec_padded, dec_text, padded_left};
use vstd::prelude::*;

verus! {

/// Whether a year of the Gregorian calendar has a 29 February.
pub open spec fn leap(y: int) -> bool {
    y % 4 == 0 && (y % 100 != 0 || y % 400 == 0)
}

/// The number of days of a month.
pub open spec fn month_days(y: int, m: int) -> int {
    if m == 2 {
        if leap(y) { 29 } else { 28 }
    } else if m == 4 || m == 6 || m == 9 || m == 11 {
        30
    } else {
        31
    }
}

/// Days of a year before its month `m`.
pub open spec fn days_before_month(y: int, m: int) -> int
    decreases m,
{
    if m <= 1 { 0 } else { days_before_month(y, m - 1) + month_days(y, m - 1) }
}

/// Days before 1 January of a year, counted from 1 January of year 0: 365 a
/// year, and one more for each leap year passed.
pub open spec fn days_before_year(y: int) -> int {
    365 * y + (y + 3) / 4 - (y + 99) / 100 + (y + 399) / 400
}

/// A date of the Gregorian calendar.
pub open spec fn is_date(y: int, m: int, d: int) -> bool {
    1 <= m <= 12 && 1 <= d <= month_days(y, m)
}

/// Days from 1 January 1970 to a date.
pub open spec fn day_number(y: int, m: int, d: int) -> int {
    days_before_year(y) + days_before_month(y, m) + (d - 1) - days_before_year(1970)
}

/// A year split into cycles of 400, 100 and 4 years.
spec fn cycles(y: int, q: int, c: int, k: int, j: int) -> bool {
    &&& y == 400 * q + 100 * c + 4 * k + j
    &&& 0 <= c < 4
    &&& 0 <= k < 25
    &&& 0 <= j < 4
}

/// Leap years and days before a year, from its cycles.
proof fn lemma_cycles(y: int, q: int, c: int, k: int, j: int)
    requires
        cycles(y, q, c, k, j),
    ensures
        leap(y) == (j == 0 && (k != 0 || c == 0)),
        days_before_year(y) == 146_097 * q + 36_524 * c + 1461 * k + 365 * j + (if j > 0 { 1int } else { 0 })
            - (if k > 0 || j > 0 { 1int } else { 0 }) + (if c > 0 || k > 0 || j > 0 { 1int } else { 0 }),
{
    assert(y % 4 == j);
    assert(y % 100 == 4 * k + j);
    assert(y % 400 == 100 * c + 4 * k + j);
    assert((y + 3) / 4 == 100 * q + 25 * c + k + (if j > 0 { 1int } else { 0 }));
    assert((y + 99) / 100 == 4 * q + c + (if k > 0 || j > 0 { 1int } else { 0 }));
    assert((y + 399) / 400 == q + (if c > 0 || k > 0 || j > 0 { 1int } else { 0 }));
}

/// Law: a year is 365 days long, or 366 if it is a leap year, and so are its
/// months together.
pub proof fn law_year_length(y: int)
    ensures
        days_before_year(y + 1) - days_before_year(y) == (if leap(y) { 366int } else { 365int }),
        days_before_month(y, 13) == (if leap(y) { 366int } else { 365int }),
{
    let (q, r) = (y / 400, y % 400);
    let (c, s) = (r / 100, r % 100);
    let (k, j) = (s / 4, s % 4);
    assert(cycles(y, q, c, k, j));
    lemma_cycles(y, q, c, k, j);
    if j < 3 {
        lemma_cycles(y + 1, q, c, k, j + 1);
    } else if k < 24 {
        lemma_cycles(y + 1, q, c, k + 1, 0);
    } else if c < 3 {
        lemma_cycles(y + 1, q, c + 1, 0, 0);
    } else {
        lemma_cycles(y + 1, q + 1, 0, 0, 0);
    }
    lemma_months(y);
}

/// The days before each month.
proof fn lemma_months(y: int)
    ensures
        days_before_month(y, 1) == 0,
        days_before_month(y, 2) == 31,
        forall|m: int|
            3 <= m <= 13 ==> #[trigger] days_before_month(y, m) == (if leap(y) { 60int } else { 59 }) + (153 * (m - 3)
                + 2) / 5,
{
    reveal_with_fuel(days_before_month, 14);
    assert(month_days(y, 2) == (if leap(y) { 29int } else { 28 }));
}

/// Days of a 400-year cycle before its year `y`, where years begin on 1 March.
spec fn days_before_march(y: int) -> int {
    365 * y + y / 4 - y / 100
}

/// The year of a day within its cycle.
proof fn lemma_year_of_era(doe: int)
    requires
        0 <= doe < 146_097,
    ensures
        ({
            let yoe = (doe - doe / 1460 + doe / 36_524 - doe / 146_096) / 365;
            &&& 0 <= yoe < 400
            &&& days_before_march(yoe) <= doe
            &&& doe < days_before_march(yoe + 1) || (yoe == 399 && doe == 146_096)
        }),
{
}

/// Where 1 March of a year and 1 January of the next lie.
proof fn lemma_march(era: int, yoe: int)
    requires
        0 <= era,
        0 <= yoe < 400,
    ensures
        ({
            let y = 400 * era + yoe;
            &&& days_before_year(y) + (if leap(y) { 60int } else { 59int }) == 146_097 * era + days_before_march(yoe)
                + 60
            &&& days_before_year(y + 1) == 146_097 * era + days_before_march(yoe) + 366
            &&& leap(y + 1) == ((yoe + 1) % 4 == 0 && ((yoe + 1) % 100 != 0 || yoe == 399))
        }),
{
    let y = 400 * era + yoe;
    let (c, s) = (yoe / 100, yoe % 100);
    let (k, j) = (s / 4, s % 4);
    assert(cycles(y, era, c, k, j));
    lemma_cycles(y, era, c, k, j);
    assert(yoe / 4 == 25 * c + k);
    law_year_length(y);
    if j < 3 {
        lemma_cycles(y + 1, era, c, k, j + 1);
    } else if k < 24 {
        lemma_cycles(y + 1, era, c, k + 1, 0);
    } else if c < 3 {
        lemma_cycles(y + 1, era, c + 1, 0, 0);
    } else {
        lemma_cycles(y + 1, era + 1, 0, 0, 0);
    }
}

/// Month and day from the day of a year that begins on 1 March.
proof fn lemma_month_of_year(doy: int)
    requires
        0 <= doy <= 365,
    ensures
        ({
            let mp = (5 * doy + 2) / 153;
            let d = doy - (153 * mp + 2) / 5 + 1;
            let m = if mp < 10 { mp + 3 } else { mp - 9 };
            &&& 0 <= mp <= 11
            &&& 1 <= d
            &&& m != 2 ==> (forall|y: int| d <= #[trigger] month_days(y, m))
            &&& m == 2 ==> d <= 29 && (d == 29 <==> doy == 365)
        }),
{
    let mp = (5 * doy + 2) / 153;
    assert(0 <= mp <= 11);
    if mp == 0 {
    } else if mp == 1 {
    } else if mp == 2 {
    } else if mp == 3 {
    } else if mp == 4 {
    } else if mp == 5 {
    } else if mp == 6 {
    } else if mp == 7 {
    } else if mp == 8 {
    } else if mp == 9 {
    } else if mp == 10 {
    } else {
    }
}

/// The date of day `doy` of year `yoe` of a cycle.
proof fn lemma_civil(era: int, yoe: int, doy: int)
    requires
        0 <= era,
        0 <= yoe < 400,
        0 <= doy <= 365,
        doy == 365 ==> leap(400 * era + yoe + 1),
    ensures
        ({
            let mp = (5 * doy + 2) / 153;
            let d = doy - (153 * mp + 2) / 5 + 1;
            let m = if mp < 10 { mp + 3 } else { mp - 9 };
            let y = yoe + era * 400 + if m <= 2 { 1int } else { 0 };
            &&& is_date(y, m, d)
            &&& day_number(y, m, d) == 146_097 * era + days_before_march(yoe) + doy - 719_468
        }),
{
    lemma_march(era, yoe);
    lemma_month_of_year(doy);
    let mp = (5 * doy + 2) / 153;
    let d = doy - (153 * mp + 2) / 5 + 1;
    let m = if mp < 10 { mp + 3 } else { mp - 9 };
    let y = yoe + era * 400 + if m <= 2 { 1int } else { 0 };
    lemma_months(y);
    assert(days_before_year(1970) == 719_528);
    assert(d <= month_days(y, m));
    if mp == 10 {
        assert((153 * mp + 2) / 5 == 306);
    } else if mp == 11 {
        assert((153 * mp + 2) / 5 == 337);
    } else {
        assert(days_before_month(y, m) == (if leap(y) { 60int } else { 59 }) + (153 * mp + 2) / 5);
    }
}

/// The date that lies a number of days after 1 January 1970.
#[verifier::spinoff_prover]
pub fn civil_from_days(days: u64) -> (r: (u64, u64, u64))
    requires
        days <= u64::MAX / 86400,
    ensures
        is_date(r.0 as int, r.1 as int, r.2 as int),
        day_number(r.0 as int, r.1 as int, r.2 as int) == days,
{
    // years run from March here, so that the leap day comes last
    let z: u64 = days + 719_468;
    let era: u64 = z / 146_097;
    let doe: u64 = z % 146_097;
    proof {
        lemma_year_of_era(doe as int);
    }
    let yoe: u64 = (doe - doe / 1460 + doe / 36_524 - doe / 146_096) / 365;
    let doy: u64 = doe - (365 * yoe + yoe / 4 - yoe / 100);
    proof {
        lemma_last_day(era as int, yoe as int, doe as int);
        lemma_civil(era as int, yoe as int, doy as int);
    }
    let mp: u64 = (5 * doy + 2) / 153;
    let d: u64 = doy - (153 * mp + 2) / 5 + 1;
    let m: u64 = if mp < 10 { mp + 3 } else { mp - 9 };
    let y: u64 = yoe + era * 400 + if m <= 2 { 1 } else { 0 };
    (y, m, d)
}

/// Only a year that ends in a leap day has a 366th day.
proof fn lemma_last_day(era: int, yoe: int, doe: int)
    requires
        0 <= era,
        0 <= yoe < 400,
        days_before_march(yoe) <= doe,
        doe < days_before_march(yoe + 1) || (yoe == 399 && doe == 146_096),
    ensures
        doe - days_before_march(yoe) <= 365,
        doe - days_before_march(yoe) == 365 ==> leap(400 * era + yoe + 1),
{
    lemma_march(era, yoe);
    let (c, s) = (yoe / 100, yoe % 100);
    let (k, j) = (s / 4, s % 4);
    assert(yoe / 4 == 25 * c + k);
    assert((yoe + 1) / 4 == 25 * c + k + (if j == 3 { 1int } else { 0 }));
    assert((yoe + 1) / 100 == c + (if s == 99 { 1int } else { 0 }));
}

proof fn lemma_years_increase(a: int, b: int)
    requires
        a <= b,
    ensures
        days_before_year(a) <= days_before_year(b),
        a < b ==> days_before_year(a + 1) <= days_before_year(b),
    decreases b - a,
{
    if a < b {
        law_year_length(b - 1);
        lemma_years_increase(a, b - 1);
    }
}

proof fn lemma_months_increase(y: int, a: int, b: int)
    requires
        1 <= a <= b <= 13,
    ensures
        days_before_month(y, a) <= days_before_month(y, b),
        a < b ==> days_before_month(y, a) + month_days(y, a) <= days_before_month(y, b),
    decreases b - a,
{
    if a < b {
        lemma_months_increase(y, a, b - 1);
    }
}

proof fn lemma_day_in_year(y: int, m: int, d: int)
    requires
        is_date(y, m, d),
    ensures
        days_before_year(y) <= day_number(y, m, d) + days_before_year(1970) < days_before_year(y + 1),
{
    law_year_length(y);
    lemma_months_increase(y, 1, m);
    lemma_months_increase(y, m, 13);
    assert(days_before_month(y, 1) == 0);
}

/// Law: no two dates have the same day number.
pub proof fn law_dates_are_distinct(y1: int, m1: int, d1: int, y2: int, m2: int, d2: int)
    requires
        is_date(y1, m1, d1),
        is_date(y2, m2, d2),
        day_number(y1, m1, d1) == day_number(y2, m2, d2),
    ensures
        y1 == y2 && m1 == m2 && d1 == d2,
{
    lemma_day_in_year(y1, m1, d1);
    lemma_day_in_year(y2, m2, d2);
    if y1 < y2 {
        lemma_years_increase(y1, y2);
    } else if y2 < y1 {
        lemma_years_increase(y2, y1);
    } else if m1 < m2 {
        lemma_months_increase(y1, m1, m2);
    } else if m2 < m1 {
        lemma_months_increase(y1, m2, m1);
    }
}

/// The date of a day number.
pub open spec fn date_of(days: int) -> (int, int, int) {
    choose|y: int, m: int, d: int| is_date(y, m, d) && #[trigger] day_number(y, m, d) == days
}

/// Two decimal digits, or more where two do not do.
pub open spec fn two(n: int) -> Seq<char> {
    padded_left(dec(n as nat), 2, '0')
}

/// `1970-01-01 00:00:00`: a date and a second of that day.
pub open spec fn stamp(date: (int, int, int), secs: int) -> Seq<char> {
    padded_left(dec(date.0 as nat), 4, '0') + "-"@ + two(date.1) + "-"@ + two(date.2) + " "@ + two(secs / 3600) + ":"@
        + two(secs % 3600 / 60) + ":"@ + two(secs % 60)
}

/// Date and time of day, in UTC, of a moment in seconds since 1970.
pub fn fmt_ts(t: u64) -> (r: String)
    ensures
        r@ == stamp(date_of(t as int / 86_400), t as int % 86_400),
{
    let rem: u64 = t % 86_400;
    let (y, m, d) = civil_from_days(t / 86_400);
    proof {
        let (cy, cm, cd) = date_of(t as int / 86_400);
        law_dates_are_distinct(cy, cm, cd, y as int, m as int, d as int);
    }
    let mut r = dec_padded(y, 4);
    r.append("-");
    r.append(dec_padded(m, 2).as_str());
    r.append("-");
    r.append(dec_padded(d, 2).as_str());
    r.append(" ");
    r.append(dec_padded(rem / 3600, 2).as_str());
    r.append(":");
    r.append(dec_padded((rem % 3600) / 60, 2).as_str());
    r.append(":");
    r.append(dec_padded(rem % 60, 2).as_str());
    r
}

/// An age in its largest whole unit: seconds, minutes, hours or days.
pub open spec fn ago(secs: nat) -> Seq<char> {
    if secs < 60 {
        dec(secs) + "s"@
    } else if secs < 3600 {
        dec(secs / 60) + "m"@
    } else if secs < 86_400 {
        dec(secs / 3600) + "h"@
    } else {
        dec(secs / 86_400) + "d"@
    }
}

/// An age as text: `59s`, `2h`.
pub fn fmt_ago(secs: u64) -> (r: String)
    ensures
        r@ == ago(secs as nat),
{
    if secs < 60 {
        dec_text(secs).concat("s")
    } else if secs < 3600 {
        dec_text(secs / 60).concat("m")
    } else if secs < 86_400 {
        dec_text(secs / 3600).concat("h")
    } else {
        dec_text(secs / 86_400).concat("d")
    }
}

/// Law: an age is shown in its largest whole unit.
pub proof fn law_ages_in_their_largest_unit(secs: nat)
    ensures
        secs < 60 ==> ago(secs) == dec(secs) + "s"@,
        60 <= secs < 3600 ==> ago(secs) == dec(secs / 60) + "m"@,
        3600 <= secs < 86_400 ==> ago(secs) == dec(secs / 3600) + "h"@,
        86_400 <= secs ==> ago(secs) == dec(secs / 86_400) + "d"@,
{
}

/// Law: the calendar. Months have their days, and a year is a leap year every
/// fourth, but of the centuries only every fourth.
pub proof fn law_calendar(y: int, m: int)
    requires
        1 <= m <= 12,
    ensures
        m == 2 ==> month_days(y, m) == if y % 400 == 0 || (y % 4 == 0 && y % 100 != 0) { 29int } else { 28 },
        m == 4 || m == 6 || m == 9 || m == 11 ==> month_days(y, m) == 30,
        m != 2 && m != 4 && m != 6 && m != 9 && m != 11 ==> month_days(y, m) == 31,
        day_number(1970, 1, 1) == 0,
        day_number(y, 1, 2) == day_number(y, 1, 1) + 1,
{
    assert(days_before_month(1970, 1) == 0);
}

/// Law: the day after a date is the next date: of the month, else the first of
/// the next month, else the first of the next year.
pub proof fn law_days_follow_each_other(y: int, m: int, d: int)
    requires
        is_date(y, m, d),
    ensures
        d < month_days(y, m) ==> day_number(y, m, d + 1) == day_number(y, m, d) + 1,
        d == month_days(y, m) && m < 12 ==> day_number(y, m + 1, 1) == day_number(y, m, d) + 1,
        d == month_days(y, m) && m == 12 ==> day_number(y + 1, 1, 1) == day_number(y, m, d) + 1,
{
    law_year_length(y);
    assert(days_before_month(y, m + 1) == days_before_month(y, m) + month_days(y, m));
    assert(days_before_month(y + 1, 1) == 0);
}

/// Law: a moment is shown by its date and its time of day.
pub proof fn law_stamps_show_the_moment(y: int, m: int, d: int, h: int, min: int, s: int)
    requires
        is_date(y, m, d),
        day_number(y, m, d) >= 0,
        0 <= h < 24,
        0 <= min < 60,
        0 <= s < 60,
    ensures
        ({
            let t = day_number(y, m, d) * 86_400 + h * 3600 + min * 60 + s;
            stamp(date_of(t / 86_400), t % 86_400) == padded_left(dec(y as nat), 4, '0') + "-"@ + padded_left(
                dec(m as nat),
                2,
                '0',
            ) + "-"@ + padded_left(dec(d as nat), 2, '0') + " "@ + padded_left(dec(h as nat), 2, '0') + ":"@
                + padded_left(dec(min as nat), 2, '0') + ":"@ + padded_left(dec(s as nat), 2, '0')
        }),
{
    let n = day_number(y, m, d);
    let secs = h * 3600 + min * 60 + s;
    let t = n * 86_400 + h * 3600 + min * 60 + s;
    assert(t / 86_400 == n && t % 86_400 == secs);
    assert(secs / 3600 == h && secs % 3600 / 60 == min && secs % 60 == s);
    let (a, b, c) = date_of(n);
    law_dates_are_distinct(a, b, c, y, m, d);
}

} // verus!
