//! Calendar helpers of the NOAA solar position model.

use crate::time::leap_year;
use vstd::prelude::*;

verus! {

/// Whether `year` is a leap year of the Gregorian calendar; the fractional
/// year of the model divides by 366 days in such a year.
pub fn is_leap_year(year: u16) -> (r: bool)
    ensures
        r == leap_year(year as int),
{
    crate::time::is_leap_year(year)
}

} // verus!
