//! Proleptic Gregorian calendar arithmetic counted from 1970-01-01.

use vstd::prelude::*;

verus! {

/// Leap-year rule of the Gregorian calendar.
pub open spec fn is_leap_year(y: int) -> bool {
    y % 4 == 0 && (y % 100 != 0 || y % 400 == 0)
}

/// Number of days in year `y`.
pub open spec fn days_in_year(y: int) -> int {
    if is_leap_year(y) {
        366
    } else {
        365
    }
}

/// Number of days in month `m` (1..=12) of year `y`.
pub open spec fn days_in_month(y: int, m: int) -> int {
    if m == 2 {
        if is_leap_year(y) {
            29
        } else {
            28
        }
    } else if m == 4 || m == 6 || m == 9 || m == 11 {
        30
    } else {
        31
    }
}

/// Days from 1970-01-01 to the first day of year `y` (for `y >= 1970`).
pub open spec fn days_before_year(y: int) -> int
    decreases y - 1970,
{
    if y <= 1970 {
        0
    } else {
        days_before_year(y - 1) + days_in_year(y - 1)
    }
}

/// Days from the first of January to the first day of month `m` in year `y`.
pub open spec fn days_before_month(y: int, m: int) -> int
    decreases m,
{
    if m <= 1 {
        0
    } else {
        days_before_month(y, m - 1) + days_in_month(y, m - 1)
    }
}

/// Walks whole years forward from year `y`: the year that contains day `d`
/// (counted from the first day of `y`) and the day's index within that year.
pub open spec fn year_and_day(y: int, d: int) -> (int, int)
    decreases d,
{
    if d < 0 || d < days_in_year(y) {
        (y, d)
    } else {
        year_and_day(y + 1, d - days_in_year(y))
    }
}

/// Walks whole months forward from month `m` of year `y`: the month that
/// contains day `d` (counted from the first day of `m`) and the day's index
/// within that month.
pub open spec fn month_and_day(y: int, m: int, d: int) -> (int, int)
    decreases 12 - m,
{
    if m >= 12 || d < days_in_month(y, m) {
        (m, d)
    } else {
        month_and_day(y, m + 1, d - days_in_month(y, m))
    }
}

/// The calendar date (year, month, day-of-month) that lies `days` days after
/// 1970-01-01, for `days >= 0`.
pub open spec fn civil_from_days(days: int) -> (int, int, int) {
    let (y, doy) = year_and_day(1970, days);
    let (m, dom) = month_and_day(y, 1, doy);
    (y, m, dom + 1)
}

/// Days from 1970-01-01 to the given calendar date.
pub open spec fn days_from_civil(y: int, m: int, d: int) -> int {
    days_before_year(y) + days_before_month(y, m) + d - 1
}

/// A well-formed calendar date on or after 1970-01-01.
pub open spec fn is_valid_date(y: int, m: int, d: int) -> bool {
    &&& y >= 1970
    &&& 1 <= m <= 12
    &&& 1 <= d <= days_in_month(y, m)
}

proof fn lemma_months_fill_year(y: int)
    ensures
        days_before_month(y, 13) == days_in_year(y),
{
    reveal_with_fuel(days_before_month, 13);
}

proof fn lemma_year_and_day(y: int, d: int)
    requires
        y >= 1970,
        d >= 0,
    ensures
        year_and_day(y, d).0 >= y,
        0 <= year_and_day(y, d).1 < days_in_year(year_and_day(y, d).0),
        days_before_year(year_and_day(y, d).0) + year_and_day(y, d).1 == days_before_year(y) + d,
    decreases d,
{
    if d >= days_in_year(y) {
        lemma_year_and_day(y + 1, d - days_in_year(y));
    }
}

proof fn lemma_month_and_day(y: int, m: int, d: int)
    requires
        1 <= m <= 12,
        0 <= d,
        days_before_month(y, m) + d < days_in_year(y),
    ensures
        m <= month_and_day(y, m, d).0 <= 12,
        0 <= month_and_day(y, m, d).1 < days_in_month(y, month_and_day(y, m, d).0),
        days_before_month(y, month_and_day(y, m, d).0) + month_and_day(y, m, d).1
            == days_before_month(y, m) + d,
    decreases 12 - m,
{
    if m == 12 {
        lemma_months_fill_year(y);
        assert(days_before_month(y, 13) == days_before_month(y, 12) + days_in_month(y, 12));
    } else if d >= days_in_month(y, m) {
        assert(days_before_month(y, m + 1) == days_before_month(y, m) + days_in_month(y, m));
        lemma_month_and_day(y, m + 1, d - days_in_month(y, m));
    }
}

/// Every day count at or after the epoch names a valid calendar date, and
/// counting the days back from that date gives the same count.
pub proof fn lemma_civil_round_trip(days: int)
    requires
        days >= 0,
    ensures
        is_valid_date(
            civil_from_days(days).0,
            civil_from_days(days).1,
            civil_from_days(days).2,
        ),
        days_from_civil(
            civil_from_days(days).0,
            civil_from_days(days).1,
            civil_from_days(days).2,
        ) == days,
{
    lemma_year_and_day(1970, days);
    let (y, doy) = year_and_day(1970, days);
    assert(days_before_month(y, 1) == 0);
    lemma_month_and_day(y, 1, doy);
}

/// Converts a count of days since 1970-01-01 into (year, month, day).
///
/// For a negative count the year loop stops at once and the result is
/// 1970-01 with the day number wrapped into `u32`.
pub fn days_to_ymd(days: i64) -> (r: (u32, u32, u32))
    ensures
        days >= 0 ==> r == ((civil_from_days(days as int).0 as u32), (civil_from_days(
            days as int,
        ).1 as u32), (civil_from_days(days as int).2 as u32)),
        days >= 0 ==> is_valid_date(
            civil_from_days(days as int).0,
            civil_from_days(days as int).1,
            civil_from_days(days as int).2,
        ),
        days < 0 ==> r.0 == 1970 && r.1 == 1 && r.2 == (days as u32).wrapping_add(1),
{
    let ghost days0 = days as int;
    let mut days = days;
    let mut y: i64 = 1970;
    loop
        invariant_except_break
            y >= 1970,
            days0 <= i64::MAX,
            days0 >= 0 ==> days >= 0,
            days0 < 0 ==> days == days0 && y == 1970,
            (y - 1970) * 365 <= days0 - days,
            days0 >= 0 ==> year_and_day(1970, days0) == year_and_day(y as int, days as int),
        ensures
            y >= 1970,
            days0 < 0 ==> days == days0 && y == 1970,
            days0 >= 0 ==> 0 <= days < days_in_year(y as int),
            days0 >= 0 ==> year_and_day(1970, days0) == (y as int, days as int),
        decreases days,
    {
        let dy: i64 = if y % 4 == 0 && (y % 100 != 0 || y % 400 == 0) {
            366
        } else {
            365
        };
        if days < dy {
            break;
        }
        days = days - dy;
        y = y + 1;
    }
    let leap = y % 4 == 0 && (y % 100 != 0 || y % 400 == 0);
    let md: [u32; 12] = if leap {
        [31, 29, 31, 30, 31, 30, 31, 31, 30, 31, 30, 31]
    } else {
        [31, 28, 31, 30, 31, 30, 31, 31, 30, 31, 30, 31]
    };
    assert(forall|i: int| 0 <= i < 12 ==> md@[i] == days_in_month(y as int, i + 1));
    let ghost doy = days as int;
    proof {
        if days0 >= 0 {
            lemma_year_and_day(1970, days0);
            lemma_months_fill_year(y as int);
        }
    }
    let mut m: u32 = 0;
    let mut i: usize = 0;
    while i < 12
        invariant_except_break
            0 <= i <= 12,
            m == 0,
            days0 < 0 ==> i == 0 && days == days0,
            days0 >= 0 ==> days >= 0,
            days0 >= 0 ==> days as int + days_before_month(y as int, i + 1) == doy,
            days0 >= 0 ==> doy < days_before_month(y as int, 13),
            days0 >= 0 ==> month_and_day(y as int, 1, doy) == month_and_day(
                y as int,
                i + 1,
                days as int,
            ),
            forall|k: int| 0 <= k < 12 ==> md@[k] == days_in_month(y as int, k + 1),
        ensures
            days0 < 0 ==> m == 1 && days == days0,
            days0 >= 0 ==> 1 <= m <= 12 && 0 <= days < days_in_month(y as int, m as int)
                && month_and_day(y as int, 1, doy) == (m as int, days as int),
        decreases 12 - i,
    {
        if days < md[i] as i64 {
            m = i as u32 + 1;
            break;
        }
        proof {
            if days0 >= 0 && i == 11 {
                assert(days_before_month(y as int, 13) == days_before_month(y as int, 12)
                    + days_in_month(y as int, 12));
            }
        }
        days = days - md[i] as i64;
        i = i + 1;
    }
    if m == 0 {
        m = 12;
    }
    proof {
        if days0 >= 0 {
            lemma_civil_round_trip(days0);
        }
    }
    (y as u32, m, (days as u32).wrapping_add(1))
}

} // verus!
