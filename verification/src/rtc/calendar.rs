//! The Gregorian calendar, counted in days from 1970-01-01.

use vstd::prelude::*;

verus! {

// ── The calendar ────────────────────────────────────────────────────────────

/// Every fourth year, except centuries, except every fourth century.
pub open spec fn leap(year: int) -> bool {
    year % 4 == 0 && (year % 100 != 0 || year % 400 == 0)
}

pub open spec fn month_len(year: int, month: int) -> int {
    if month == 2 {
        if leap(year) {
            29
        } else {
            28
        }
    } else if month == 4 || month == 6 || month == 9 || month == 11 {
        30
    } else {
        31
    }
}

/// A date that is on the calendar: year, month and day.
pub open spec fn on_calendar(t: (int, int, int)) -> bool {
    1 <= t.1 <= 12 && 1 <= t.2 <= month_len(t.0, t.1)
}

/// How many of the years before this one, counted from year 1, were leap
/// years. Years before year 1 count backwards.
pub open spec fn leaps_before(year: int) -> int {
    (year - 1) / 4 - (year - 1) / 100 + (year - 1) / 400
}

/// Days from 1970-01-01 to the first day of a year.
pub open spec fn before_year(year: int) -> int {
    365 * (year - 1970) + leaps_before(year) - leaps_before(1970)
}

/// Days from the first day of a year to the first day of a month.
pub open spec fn before_month(year: int, month: int) -> int {
    (if month <= 1 {
        0int
    } else if month == 2 {
        31
    } else if month == 3 {
        59
    } else if month == 4 {
        90
    } else if month == 5 {
        120
    } else if month == 6 {
        151
    } else if month == 7 {
        181
    } else if month == 8 {
        212
    } else if month == 9 {
        243
    } else if month == 10 {
        273
    } else if month == 11 {
        304
    } else {
        334
    }) + (if month > 2 && leap(year) {
        1int
    } else {
        0
    })
}

/// Days from 1970-01-01 to a date.
pub open spec fn day_number(t: (int, int, int)) -> int {
    before_year(t.0) + before_month(t.0, t.1) + t.2 - 1
}

/// The date that so many days from 1970-01-01 lead to.
pub open spec fn date_of(days: int) -> (int, int, int) {
    choose|t: (int, int, int)| on_calendar(t) && day_number(t) == days
}

/// The count of days starts at 1970-01-01, and a year has 366 days if it is a
/// leap year and 365 if not.
pub proof fn years_follow_the_gregorian_rule(year: int)
    ensures
        before_year(1970) == 0,
        before_year(year + 1) == before_year(year) + (if leap(year) {
            366int
        } else {
            365
        }),
{
}

/// The months of a year follow each other without a gap, and fill it.
pub proof fn months_fill_the_year(year: int, month: int)
    requires
        1 <= month <= 12,
    ensures
        before_month(year, 1) == 0,
        month < 12 ==> before_month(year, month + 1) == before_month(year, month) + month_len(
            year,
            month,
        ),
        month == 12 ==> before_year(year + 1) == before_year(year) + before_month(year, 12)
            + month_len(year, 12),
{
    years_follow_the_gregorian_rule(year);
}

proof fn years_grow(a: int, b: int)
    requires
        a <= b,
    ensures
        before_year(a) <= before_year(b),
    decreases b - a,
{
    if a < b {
        years_grow(a, b - 1);
        years_follow_the_gregorian_rule(b - 1);
    }
}

proof fn months_grow(year: int, a: int, b: int)
    requires
        1 <= a <= b <= 12,
    ensures
        before_month(year, a) <= before_month(year, b),
    decreases b - a,
{
    if a < b {
        months_grow(year, a, b - 1);
        months_fill_the_year(year, b - 1);
    }
}

proof fn within_its_year(t: (int, int, int))
    requires
        on_calendar(t),
    ensures
        before_year(t.0) <= day_number(t) < before_year(t.0 + 1),
        t.1 < 12 ==> day_number(t) < before_year(t.0) + before_month(t.0, t.1 + 1),
{
    months_fill_the_year(t.0, t.1);
    months_grow(t.0, t.1, 12);
    months_grow(t.0, 1, t.1);
    months_fill_the_year(t.0, 12);
    if t.1 < 12 {
        months_grow(t.0, t.1 + 1, 12);
    }
}

/// No two dates have the same number.
pub proof fn day_numbers_are_unique(a: (int, int, int), b: (int, int, int))
    requires
        on_calendar(a),
        on_calendar(b),
        day_number(a) == day_number(b),
    ensures
        a == b,
{
    within_its_year(a);
    within_its_year(b);
    if a.0 < b.0 {
        years_grow(a.0 + 1, b.0);
    }
    if b.0 < a.0 {
        years_grow(b.0 + 1, a.0);
    }
    if a.1 < b.1 {
        months_grow(a.0, a.1 + 1, b.1);
    }
    if b.1 < a.1 {
        months_grow(a.0, b.1 + 1, a.1);
    }
}

/// A date is the one that its own number leads to.
pub proof fn dates_have_numbers(t: (int, int, int))
    requires
        on_calendar(t),
    ensures
        date_of(day_number(t)) == t,
{
    let u = date_of(day_number(t));
    assert(on_calendar(u) && day_number(u) == day_number(t));
    day_numbers_are_unique(t, u);
}

// ── Counting ────────────────────────────────────────────────────────────────

pub fn is_leap_year(year: u16) -> (r: bool)
    ensures
        r == leap(year as int),
{
    year % 4 == 0 && (year % 100 != 0 || year % 400 == 0)
}

pub fn days_in_month(year: u16, month: u8) -> (r: u8)
    ensures
        r == month_len(year as int, month as int),
{
    match month {
        4 | 6 | 9 | 11 => 30,
        2 => if is_leap_year(year) {
            29
        } else {
            28
        },
        _ => 31,
    }
}

/// The largest distance from year 0, in years and in days, for which days are
/// counted: further than any number of seconds in 64 bits leads.
pub const YEAR_LIMIT: i64 = 1_000_000_000_000_000;

fn floor_div(a: i64, b: i64) -> (r: i64)
    requires
        b > 0,
        a - b >= i64::MIN,
    ensures
        r == a as int / b as int,
{
    if a >= 0 {
        a / b
    } else {
        proof {
            floor_of_negative(a as int, b as int);
        }
        -((b - 1 - a) / b)
    }
}

proof fn floor_of_negative(a: int, b: int)
    requires
        b > 0,
        a < 0,
    ensures
        a / b == -((b - 1 - a) / b),
{
    let q = (b - 1 - a) / b;
    let r = (b - 1 - a) % b;
    assert(b - 1 - a == b * q + r && 0 <= r < b) by {
        vstd::arithmetic::div_mod::lemma_fundamental_div_mod(b - 1 - a, b);
        vstd::arithmetic::div_mod::lemma_mod_bound(b - 1 - a, b);
    }
    assert(b * (-q) == -(b * q)) by (nonlinear_arith);
    vstd::arithmetic::div_mod::lemma_fundamental_div_mod_converse(a, b, -q, b - 1 - r);
}

/// Days from 1970-01-01 to a date. The day need not be in the month.
///
/// The year is taken to start in March, which puts the leap day at its end:
/// the rules for leap years then fall out of plain division.
pub fn days_from_civil(year: i64, month: i64, day: i64) -> (r: i64)
    requires
        -YEAR_LIMIT <= year <= YEAR_LIMIT,
        1 <= month <= 12,
        -YEAR_LIMIT <= day <= YEAR_LIMIT,
    ensures
        r == before_year(year as int) + before_month(year as int, month as int) + day - 1,
{
    let ghost y0 = year as int;
    let year: i64 = if month <= 2 { year - 1 } else { year };
    let era: i64 = floor_div(year, 400);
    let year_of_era: i64 = year - era * 400;
    let shifted_month: i64 = (month + 9) % 12;
    let day_of_year: i64 = (153 * shifted_month + 2) / 5 + day - 1;
    let day_of_era: i64 = year_of_era * 365 + year_of_era / 4 - year_of_era / 100 + day_of_year;
    proof {
        assert(0 <= year_of_era < 400);
        counted_by_eras(y0, month as int, era as int, year_of_era as int);
    }
    era * 146_097 + day_of_era - 719_468
}

/// The days before a month, counted in eras of 400 years from March.
proof fn counted_by_eras(year: int, month: int, era: int, year_of_era: int)
    requires
        1 <= month <= 12,
        0 <= year_of_era < 400,
        era * 400 + year_of_era == (if month <= 2 {
            year - 1
        } else {
            year
        }),
    ensures
        era * 146_097 + year_of_era * 365 + year_of_era / 4 - year_of_era / 100 + (153 * ((month + 9)
            % 12) + 2) / 5 - 719_468 == before_year(year) + before_month(year, month),
{
    let y = era * 400 + year_of_era;
    assert(y / 4 == era * 100 + year_of_era / 4);
    assert(y / 100 == era * 4 + year_of_era / 100);
    assert(y / 400 == era);
    if month > 2 {
        years_follow_the_gregorian_rule(year);
        assert(leaps_before(year + 1) == y / 4 - y / 100 + y / 400);
    } else {
        assert(leaps_before(year) == y / 4 - y / 100 + y / 400);
    }
    if month <= 6 {
        assert(month == 1 || month == 2 || month == 3 || month == 4 || month == 5 || month == 6);
    } else {
        assert(month == 7 || month == 8 || month == 9 || month == 10 || month == 11 || month == 12);
    }
}

/// Days into an era at which one of its years starts.
pub open spec fn into_era(year_of_era: int) -> int {
    365 * year_of_era + year_of_era / 4 - year_of_era / 100
}

/// The year of an era in which a day falls.
proof fn year_in_era(doe: int)
    requires
        0 <= doe < 146_097,
    ensures
        ({
            let y = (doe - doe / 1460 + doe / 36_524 - doe / 146_096) / 365;
            &&& 0 <= y < 400
            &&& into_era(y) <= doe
            &&& doe < into_era(y + 1) || (y == 399 && doe == 146_096)
        }),
{
}

/// The date that so many days from 1970-01-01 lead to.
#[verifier::spinoff_prover]
#[verifier::rlimit(60)]
pub fn civil_from_days(days: i64) -> (r: (i64, i64, i64))
    requires
        -YEAR_LIMIT <= days <= YEAR_LIMIT,
    ensures
        (r.0 as int, r.1 as int, r.2 as int) == date_of(days as int),
        on_calendar((r.0 as int, r.1 as int, r.2 as int)),
        day_number((r.0 as int, r.1 as int, r.2 as int)) == days,
{
    let days1: i64 = days + 719_468;
    let era: i64 = floor_div(days1, 146_097);
    assert(-YEAR_LIMIT <= era <= YEAR_LIMIT);
    let day_of_era: i64 = days1 - era * 146_097;
    assert(0 <= day_of_era < 146_097);
    proof {
        year_in_era(day_of_era as int);
    }
    let year_of_era: i64 = (day_of_era - day_of_era / 1460 + day_of_era / 36_524 - day_of_era
        / 146_096) / 365;
    let year: i64 = year_of_era + era * 400;
    let day_of_year: i64 = day_of_era - (365 * year_of_era + year_of_era / 4 - year_of_era / 100);
    let shifted_month: i64 = (5 * day_of_year + 2) / 153;
    let day: i64 = day_of_year - (153 * shifted_month + 2) / 5 + 1;
    let month: i64 = if shifted_month < 10 { shifted_month + 3 } else { shifted_month - 9 };
    let y: i64 = if month <= 2 { year + 1 } else { year };
    proof {
        day_in_year(day_of_year as int, year as int);
        counted_by_eras(y as int, month as int, era as int, year_of_era as int);
        assert(on_calendar((y as int, month as int, day as int)));
        assert(day_number((y as int, month as int, day as int)) == days);
        dates_have_numbers((y as int, month as int, day as int));
    }
    (y, month, day)
}

/// The month and day of a day of the year that starts in March.
proof fn day_in_year(doy: int, year: int)
    requires
        0 <= doy <= 365,
        doy == 365 ==> leap(year + 1),
    ensures
        ({
            let mp = (5 * doy + 2) / 153;
            let day = doy - (153 * mp + 2) / 5 + 1;
            let month = if mp < 10 {
                mp + 3
            } else {
                mp - 9
            };
            let y = if month <= 2 {
                year + 1
            } else {
                year
            };
            &&& 0 <= mp < 12
            &&& on_calendar((y, month, day))
            &&& (month + 9) % 12 == mp
        }),
{
    let mp = (5 * doy + 2) / 153;
    if mp < 6 {
        assert(mp == 0 || mp == 1 || mp == 2 || mp == 3 || mp == 4 || mp == 5);
    } else {
        assert(mp == 6 || mp == 7 || mp == 8 || mp == 9 || mp == 10 || mp == 11);
    }
}

/// Every day has a date, and only the one.
pub proof fn every_day_has_a_date(days: int)
    ensures
        on_calendar(date_of(days)),
        day_number(date_of(days)) == days,
{
    let days1 = days + 719_468;
    let era = days1 / 146_097;
    let day_of_era = days1 % 146_097;
    year_in_era(day_of_era);
    let year_of_era = (day_of_era - day_of_era / 1460 + day_of_era / 36_524 - day_of_era / 146_096)
        / 365;
    let year = year_of_era + era * 400;
    let day_of_year = day_of_era - into_era(year_of_era);
    day_in_year(day_of_year, year);
    let shifted_month = (5 * day_of_year + 2) / 153;
    let day = day_of_year - (153 * shifted_month + 2) / 5 + 1;
    let month = if shifted_month < 10 {
        shifted_month + 3
    } else {
        shifted_month - 9
    };
    let y = if month <= 2 {
        year + 1
    } else {
        year
    };
    counted_by_eras(y, month, era, year_of_era);
    assert(day_number((y, month, day)) == days);
    dates_have_numbers((y, month, day));
}

} // verus!
