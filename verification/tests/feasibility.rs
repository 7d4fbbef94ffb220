use date_time::duration::Duration;
use date_time::leap_second::entries_in_time_order;
use date_time::period::Period;
use date_time::tai::{fits_tai, fits_utc};
use date_time::time_point::{time_point, TimePoint};
use date_time::time_zone::TimeZone;
use date_time::uncertainty::Uncertainty;
use date_time::unix::timestamp_fits;

fn point(text: &str) -> TimePoint {
    time_point(text).unwrap()
}

#[test]
fn stepping_past_the_last_year_does_not_fit() {
    let last = point("4294967295-12-31-23-59-58");

    assert!(last.fits_seconds_forward(1));
    assert!(!last.fits_seconds_forward(2));
    assert!(!point("0-01-01-00-00-00").fits_seconds_back(1));
    assert!(point("0-01-01-00-00-01").fits_seconds_back(1));
}

#[test]
fn day_steps_stop_at_the_ends_of_the_year_range() {
    assert!(!point("4294967295-12-31").fits_days_forward(1));
    assert!(point("4294967295-12-30").fits_days_forward(1));
    assert!(!point("0-01-01").fits_days_back(1));
}

#[test]
fn spans_fit_unless_the_unit_overflows() {
    assert!(point("2027").fits_span());
    assert!(!point("4294967295").fits_span());
    let uncertain = point("0-01-01-00-00-05").with_uncertainty(Uncertainty::from_seconds(6));
    assert!(!uncertain.fits_span());
    assert!(uncertain.with_uncertainty(Uncertainty::from_seconds(5)).fits_span());
}

#[test]
fn shifts_fit_within_the_year_range() {
    let t = point("0-01-01-00-00-00-500");

    assert!(t.fits_shift(Duration::from_milliseconds(-500)));
    assert!(!t.fits_shift(Duration::from_milliseconds(-501)));
    assert!(t.fits_shift_back(Duration::from_milliseconds(500)));
    assert!(!t.fits_shift_back(Duration::from_milliseconds(501)));
    assert!(!t.fits_shift(Duration::from_milliseconds(i64::MIN)));
}

#[test]
fn periods_fit_unless_a_component_overflows() {
    let t = point("2027-04-20-13");

    assert!(t.fits_period(Period::new(1, 2, 3, 4, 5, 6, 7)));
    assert!(!t.fits_period(Period::from_years(i64::MAX)));
    assert!(t.fits_period_back(Period::from_months(25)));
    assert!(!t.fits_period(Period::from_hours(i64::MAX)));
    assert!(Period::fits(0, 0, 0, 0, 0, 0, 0));
    assert!(!Period::fits(i64::MAX, 12, 0, 0, 0, 0, 0));
    assert!(!Period::fits(0, 0, 0, i64::MAX, 60, 0, 0));
}

#[test]
fn conversions_fit_in_the_supported_years() {
    let utc = point("2027-04-20-13-45-30");

    assert!(utc.fits_conversion(TimeZone::TAI));
    assert!(utc.fits_conversion(TimeZone::fixed(5, 30).unwrap()));
    assert!(fits_tai(&utc));
    assert!(!fits_tai(&point("9999-12-31-23-59-59")));
    assert!(fits_utc(&utc.with_zone(TimeZone::TAI)));
    assert!(!fits_utc(&point("4294957297-01-01-00-00-00").with_zone(TimeZone::TAI)));
}

#[test]
fn timestamps_fit_from_year_minus_9999_to_9999() {
    assert!(timestamp_fits(253_402_300_799));
    assert!(!timestamp_fits(253_402_300_800));
    assert!(timestamp_fits(-377_705_116_800));
    assert!(!timestamp_fits(-377_705_116_801));
    assert!(point("2027-04-20").fits_fast_shift(60));
    assert!(!point("9999-12-31-23-59-59").fits_fast_shift(1));
}

#[test]
fn measures_fit_between_reachable_clocks() {
    let a = point("2027-04-20-13-45-30-250");
    let b = point("2027-04-20-13-46-30-000");

    assert!(b.fits_measure(&a));
    assert!(a.fits_measure(&b));
    assert!(a.fits_measure(&a));
    let hour = TimePoint { precision: date_time::precision::Precision::Hour, ..a };
    assert!(!hour.fits_measure(&a));
}

#[test]
fn entries_sort_stably_by_timestamp() {
    let entries = vec![(30, 1), (10, 2), (20, 3), (10, 4), (30, 5)];

    assert_eq!(
        entries_in_time_order(entries),
        vec![(10, 2), (10, 4), (20, 3), (30, 1), (30, 5)]
    );
    assert_eq!(entries_in_time_order(Vec::new()), Vec::new());
}
