//! Calendar arithmetic: leap years, day of the year and Julian day numbers.

use vstd::prelude::*;

verus! {

/// A Gregorian leap year: divisible by 4 and not by 100, unless divisible by 400.
pub open spec fn leap_year(year: int) -> bool {
    (year % 4 == 0 && year % 100 != 0) || year % 400 == 0
}

/// Whether `year` is a leap year of the Gregorian calendar.
pub fn is_leap_year(year: u16) -> (r: bool)
    ensures
        r == leap_year(year as int),
{
    (year % 4 == 0 && year % 100 != 0) || year % 400 == 0
}


/// Number of days in `year`: 366 in a leap year, 365 otherwise.
pub open spec fn year_length(year: int) -> int {
    if leap_year(year) {
        366
    } else {
        365
    }
}

/// Days of the year that lie before the first day of `month` (1 to 12); month
/// 13 stands for the end of the year. February has 29 days when `leap` holds.
pub open spec fn days_before_month(leap: bool, month: int) -> int {
    let common: int = if month <= 1 {
        0
    } else if month == 2 {
        31
    } else if month == 3 {
        59
    } else if month == 4 {
        90
    } else if month == 5 {
        120
    } else if month == 6 {
        151
    } else if month == 7 {
        181
    } else if month == 8 {
        212
    } else if month == 9 {
        243
    } else if month == 10 {
        273
    } else if month == 11 {
        304
    } else if month == 12 {
        334
    } else {
        365
    };
    if leap && month > 2 {
        common + 1
    } else {
        common
    }
}

/// Day `day_of_year` of a year falls on day `day` of `month`: `month` is the
/// first month whose end is not before it, and `day` counts from the end of the
/// month before. Day 0 falls on day 0 of January.
pub open spec fn falls_on(leap: bool, day_of_year: int, month: int, day: int) -> bool {
    &&& 1 <= month <= 12
    &&& month == 1 || days_before_month(leap, month) < day_of_year
    &&& day_of_year <= days_before_month(leap, month + 1)
    &&& day == day_of_year - days_before_month(leap, month)
}

/// Number of days in `year`.
pub fn days_in_year(year: u16) -> (r: u16)
    ensures
        r == year_length(year as int),
{
    if is_leap_year(year) {
        366
    } else {
        365
    }
}

/// The month and day of the month on which day `day_of_year` of `year` falls,
/// as `(month, day)`. Day 0 gives `(1, 0)`.
pub fn day_of_year_to_date(year: u16, day_of_year: u16) -> (r: (u8, u8))
    requires
        day_of_year <= year_length(year as int),
    ensures
        falls_on(leap_year(year as int), day_of_year as int, r.0 as int, r.1 as int),
{
    let leap = is_leap_year(year);
    let month_days: [u16; 13] = if leap {
        [0, 31, 60, 91, 121, 152, 182, 213, 244, 274, 305, 335, 366]
    } else {
        [0, 31, 59, 90, 120, 151, 181, 212, 243, 273, 304, 334, 365]
    };
    assert(forall|k: int| 0 <= k < 13 ==> month_days@[k] == days_before_month(leap, k + 1));
    let mut month: usize = 1;
    while month < 12 && day_of_year > month_days[month]
        invariant
            1 <= month <= 12,
            day_of_year <= year_length(year as int),
            leap == leap_year(year as int),
            forall|k: int| 0 <= k < 13 ==> month_days@[k] == days_before_month(leap, k + 1),
            month == 1 || days_before_month(leap, month as int) < day_of_year,
        decreases 12 - month,
    {
        month = month + 1;
    }
    let day: u16 = day_of_year - month_days[month - 1];
    (month as u8, day as u8)
}


/// Day of the year of the date `day`/`month`/`year`: 1 for the first of
/// January.
pub fn day_of_year(year: u16, month: u8, day: u8) -> (r: u16)
    requires
        1 <= month <= 12,
    ensures
        r == days_before_month(leap_year(year as int), month as int) + day,
{
    let n1: u16 = (275 * month as u16) / 9;
    let n2: u16 = ((month as u16 + 9) / 12) * (if is_leap_year(year) {
        1
    } else {
        2
    });
    let n3: u16 = 30;
    proof {
        lemma_month_offsets(month as int, leap_year(year as int));
    }
    n1 - n2 + day as u16 - n3
}

/// The closed form behind `day_of_year`: `275 m / 9` counts the days before
/// month `m` with February taken as 30 days long, which the second term
/// corrects from March on.
proof fn lemma_month_offsets(month: int, leap: bool)
    requires
        1 <= month <= 12,
    ensures
        275 * month / 9 - ((month + 9) / 12) * (if leap {
            1int
        } else {
            2int
        }) - 30 == days_before_month(leap, month),
{
    if month == 1 {
    } else if month == 2 {
    } else if month == 3 {
    } else if month == 4 {
    } else if month == 5 {
    } else if month == 6 {
    } else if month == 7 {
    } else if month == 8 {
    } else if month == 9 {
    } else if month == 10 {
    } else if month == 11 {
    } else {
    }
}

/// The Julian day number (Fliegel and Van Flandern) of the Gregorian date
/// `day`/`month`/`year`, where months 1 and 2 count as months 13 and 14 of the
/// year before.
pub open spec fn julian_day(day: int, month: int, year: int) -> int {
    let a = (14 - month) / 12;
    let y = year + 4800 - a;
    let m = month + 12 * a - 3;
    day + (153 * m + 2) / 5 + 365 * y + y / 4 - y / 100 + y / 400 - 32045
}

/// Julian day number of the date `day`/`month`/`year`. Months 0, 13 and 14
/// stand for December of the year before and January and February of the year
/// after.
pub fn julian_day_number(day: u8, month: u8, year: u16) -> (r: u32)
    requires
        month <= 14,
    ensures
        r == julian_day(day as int, month as int, year as int),
{
    let a: u32 = (14 - month as u32) / 12;
    let y: u32 = year as u32 + 4800 - a;
    let m: u32 = month as u32 + 12 * a - 3;
    day as u32 + (153 * m + 2) / 5 + 365 * y + y / 4 - y / 100 + y / 400 - 32045
}

/// Day of the year and date agree both ways: for a day `day` that exists in
/// `month` of a year, the date on which day `days_before_month(leap, month) +
/// day` falls (what `day_of_year_to_date` returns for what `day_of_year`
/// returns) is `day` of `month` and nothing else.
pub proof fn lemma_day_of_year_round_trip(leap: bool, month: int, day: int, m: int, d: int)
    requires
        1 <= month <= 12,
        1 <= day,
        days_before_month(leap, month) + day <= days_before_month(leap, month + 1),
        falls_on(leap, days_before_month(leap, month) + day, m, d),
    ensures
        m == month,
        d == day,
{
}


/// Days of `month` (1 to 12) in a year that is a leap year when `leap` holds.
pub open spec fn month_length(leap: bool, month: int) -> int {
    days_before_month(leap, month + 1) - days_before_month(leap, month)
}

/// Julian day numbers count the days without a gap: the first day of a month
/// comes one day after the last day of the month before, February's length
/// following the Gregorian leap rule, and the first of January one day after
/// the last of December.
pub proof fn lemma_julian_day_continuous(year: int, month: int)
    requires
        0 <= year,
        1 <= month <= 12,
    ensures
        month < 12 ==> julian_day(1, month + 1, year) == julian_day(
            month_length(leap_year(year), month),
            month,
            year,
        ) + 1,
        month == 12 ==> julian_day(1, 1, year + 1) == julian_day(31, 12, year) + 1,
{
    if month == 2 {
        let n = year + 4800;
        assert(n / 4 - (n - 1) / 4 == if year % 4 == 0 { 1int } else { 0int });
        assert(n / 100 - (n - 1) / 100 == if year % 100 == 0 { 1int } else { 0int });
        assert(n / 400 - (n - 1) / 400 == if year % 400 == 0 { 1int } else { 0int });
    }
}

} // verus!
