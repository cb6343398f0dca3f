use astronav::coords::noaa_sun;
use astronav::time::{day_of_year, day_of_year_to_date, days_in_year, is_leap_year, julian_day_number};

#[test]
fn test_time_functions() {
    assert_eq!(2460443, julian_day_number(12, 5, 2024));
}

#[test]
fn date_fields_of_new_york_moment() {
    // 12 May 2024
    assert_eq!(2460443, julian_day_number(12, 5, 2024));
    assert_eq!(133, day_of_year(2024, 5, 12));
}

#[test]
fn date_fields_of_chennai_moment() {
    // 16 May 2024
    assert_eq!(2460447, julian_day_number(16, 5, 2024));
    assert_eq!(137, day_of_year(2024, 5, 16));
}

#[test]
fn julian_day_number_of_epochs() {
    assert_eq!(2451545, julian_day_number(1, 1, 2000));
    assert_eq!(2451605, julian_day_number(1, 3, 2000));
    assert_eq!(2415021, julian_day_number(1, 1, 1900));
}

#[test]
fn julian_day_number_counts_consecutive_days() {
    assert_eq!(julian_day_number(29, 2, 2024) + 1, julian_day_number(1, 3, 2024));
    assert_eq!(julian_day_number(31, 12, 2023) + 1, julian_day_number(1, 1, 2024));
    assert_eq!(julian_day_number(28, 2, 2100) + 1, julian_day_number(1, 3, 2100));
}

#[test]
fn leap_years() {
    assert!(is_leap_year(2024));
    assert!(!is_leap_year(2023));
    assert!(!is_leap_year(1900));
    assert!(!is_leap_year(2100));
    assert!(is_leap_year(2000));
    assert!(is_leap_year(1600));
}

#[test]
fn leap_years_of_the_solar_model() {
    for year in [1600u16, 1900, 2000, 2023, 2024, 2100] {
        assert_eq!(is_leap_year(year), noaa_sun::is_leap_year(year));
    }
}

#[test]
fn year_lengths() {
    assert_eq!(366, days_in_year(2024));
    assert_eq!(365, days_in_year(2023));
    assert_eq!(365, days_in_year(1900));
    assert_eq!(366, days_in_year(2000));
}

#[test]
fn day_of_year_ends_of_the_year() {
    assert_eq!(1, day_of_year(2024, 1, 1));
    assert_eq!(366, day_of_year(2024, 12, 31));
    assert_eq!(365, day_of_year(2023, 12, 31));
}

#[test]
fn day_of_year_after_february() {
    assert_eq!(61, day_of_year(2024, 3, 1));
    assert_eq!(60, day_of_year(2023, 3, 1));
    assert_eq!(61, day_of_year(2000, 3, 1));
    assert_eq!(60, day_of_year(2100, 3, 1));
}

#[test]
fn day_of_year_to_date_may() {
    assert_eq!((5, 16), day_of_year_to_date(2024, 137));
    assert_eq!((5, 17), day_of_year_to_date(2024, 138));
    assert_eq!((5, 17), day_of_year_to_date(2023, 137));
}

#[test]
fn day_of_year_to_date_edges() {
    assert_eq!((1, 0), day_of_year_to_date(2024, 0));
    assert_eq!((1, 1), day_of_year_to_date(2024, 1));
    assert_eq!((1, 31), day_of_year_to_date(2024, 31));
    assert_eq!((2, 1), day_of_year_to_date(2024, 32));
    assert_eq!((2, 29), day_of_year_to_date(2024, 60));
    assert_eq!((3, 1), day_of_year_to_date(2023, 60));
    assert_eq!((12, 31), day_of_year_to_date(2024, 366));
    assert_eq!((12, 31), day_of_year_to_date(2023, 365));
}

#[test]
fn day_of_year_round_trip() {
    for year in [1900u16, 2000, 2023, 2024, 2100] {
        for doy in 1..=days_in_year(year) {
            let (month, day) = day_of_year_to_date(year, doy);
            assert_eq!(doy, day_of_year(year, month, day));
        }
    }
}
