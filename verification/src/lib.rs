//! Core data structures of a terminal calendar: a layering index that packs
//! overlapping time intervals into lanes, plus the small pieces of pure state
//! the surrounding user interface keeps (input modes, popup form fields) and
//! the calendar arithmetic helpers.

use vstd::prelude::*;

pub mod app_state;
pub mod coverage;
pub mod index;
pub mod interval;
pub mod lanes;
pub mod laws;
pub mod popup;
pub mod selection;

verus! {

/// Years up to this one follow the Julian rule (every fourth year is leap).
pub const REFORM_YEAR: u32 = 1099;

/// Whether `year` is a leap year: the Julian rule up to `REFORM_YEAR`,
/// the Gregorian rule afterwards.
pub open spec fn is_leap_year_spec(year: u32) -> bool {
    if year <= REFORM_YEAR {
        year % 4 == 0
    } else {
        ((year % 4 == 0) != (year % 100 == 0)) != (year % 400 == 0)
    }
}

pub fn is_leap_year(year: u32) -> (r: bool)
    ensures
        r == is_leap_year_spec(year),
{
    if year <= REFORM_YEAR {
        return year % 4 == 0;
    }
    (year % 4 == 0) ^ (year % 100 == 0) ^ (year % 400 == 0)
}

/// Whether `year` is a leap year of the proleptic Gregorian calendar, the
/// calendar the stored dates use throughout (unlike `is_leap_year_spec`,
/// which keeps the display quirk of a Julian rule for early years).
pub open spec fn gregorian_leap(y: int) -> bool {
    y % 4 == 0 && (y % 100 != 0 || y % 400 == 0)
}

/// How many days the month `m` of year `y` has, in the proleptic
/// Gregorian calendar.
pub open spec fn days_in_month(y: int, m: int) -> int {
    if m == 2 {
        if gregorian_leap(y) {
            29
        } else {
            28
        }
    } else if m == 4 || m == 6 || m == 9 || m == 11 {
        30
    } else {
        31
    }
}

/// The number of days in the given month: the distance from its first day
/// to the first day of the following month.
pub fn get_days_from_month(year: i32, month: u32) -> (d: i64)
    requires
        0 <= year,
        1 <= month <= 12,
    ensures
        d == days_in_month(year as int, month as int),
{
    if month == 2 {
        if year % 4 == 0 && (year % 100 != 0 || year % 400 == 0) {
            29
        } else {
            28
        }
    } else if month == 4 || month == 6 || month == 9 || month == 11 {
        30
    } else {
        31
    }
}

} // verus!
