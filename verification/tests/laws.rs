use date_time::duration::Duration;
use date_time::interval::{interval, AllenRelation};
use date_time::period::Period;
use date_time::precision::Precision;
use date_time::tai::{tai_to_utc, utc_to_tai};
use date_time::time_point::{
    decode_day, decode_month, decode_year, encode_date, encode_datetime, time_point, TimePoint,
};
use date_time::time_zone::TimeZone;
use date_time::truth_values::TruthValue;
use date_time::unix::{from_unix_timestamp, to_unix_timestamp};

fn point(text: &str) -> TimePoint {
    time_point(text).unwrap()
}

fn converse(r: AllenRelation) -> AllenRelation {
    match r {
        AllenRelation::Before => AllenRelation::After,
        AllenRelation::After => AllenRelation::Before,
        AllenRelation::Meets => AllenRelation::MetBy,
        AllenRelation::MetBy => AllenRelation::Meets,
        AllenRelation::Overlaps => AllenRelation::OverlappedBy,
        AllenRelation::OverlappedBy => AllenRelation::Overlaps,
        AllenRelation::Contains => AllenRelation::During,
        AllenRelation::During => AllenRelation::Contains,
        AllenRelation::Starts => AllenRelation::StartedBy,
        AllenRelation::StartedBy => AllenRelation::Starts,
        AllenRelation::Finishes => AllenRelation::FinishedBy,
        AllenRelation::FinishedBy => AllenRelation::Finishes,
        AllenRelation::Equal => AllenRelation::Equal,
    }
}

#[test]
fn swapping_intervals_gives_the_converse_relation() {
    let a = interval(&point("2027-01-01-00-00-00"), &point("2027-01-01-00-00-10")).unwrap();
    let b = interval(&point("2027-01-01-00-00-05"), &point("2027-01-01-00-00-15")).unwrap();
    let r = a.allen_relation(&b).unwrap();

    assert_eq!(r, AllenRelation::Overlaps);
    assert_eq!(b.allen_relation(&a).unwrap(), converse(r));
}

#[test]
fn contains_is_certain_only_when_the_second_lies_inside() {
    let day = point("2027-04-20").with_zone(TimeZone::UTC);
    let hour = point("2027-04-20-13");

    assert_eq!(day.contains(&hour).unwrap(), TruthValue::True);
    assert_eq!(hour.contains(&day).unwrap(), TruthValue::False);
}

#[test]
fn same_precision_partial_overlap_leaves_contains_unknown() {
    let a = interval(&point("2027-01-01-00-00-00"), &point("2027-01-01-00-00-10")).unwrap();
    let b = interval(&point("2027-01-01-00-00-05"), &point("2027-01-01-00-00-15")).unwrap();

    assert_eq!(a.contains(&b), TruthValue::Unknown);
}

#[test]
fn duration_round_trip_with_carry_and_borrow() {
    let t = point("2027-12-31-23-59-59-900");
    let d = Duration::from_milliseconds(250);
    let later = t.add_duration(d);

    assert_eq!(later, point("2028-01-01-00-00-00-150"));
    assert_eq!(later.sub_duration(d), t);
    assert_eq!(t.sub_duration(d).add_duration(d), t);
}

#[test]
fn duration_round_trip_across_the_leap_second_at_day_end() {
    let t = point("2016-12-31-23-59-58-500");
    let d = Duration::from_milliseconds(3000);
    let later = t.add_duration(d);

    assert_eq!(later, point("2017-01-01-00-00-00-500"));
    assert_eq!(later.sub_duration(d), t);
    assert_eq!(later.duration_since(&t), d);
}

#[test]
fn leap_day_has_second_sixty_only_at_its_last_minute() {
    let t = point("2016-12-31-10-15-59");
    let next = TimePoint::add_one_second(&t);

    assert_eq!((next.minute, next.second), (16, 0));
    assert_eq!(t.add_seconds(2).sub_seconds(2), t);
    assert_eq!(
        TimePoint::add_one_second(&point("2016-12-31-23-59-59")).second,
        60
    );
    let d = Duration::from_seconds(2);
    assert_eq!(t.add_duration(d).sub_duration(d), t);
    assert_eq!(t.add_duration(d).duration_since(&t), d);
    assert_eq!(t.duration_since(&t.add_duration(d)), -d);
}

#[test]
fn leap_second_round_trips_through_durations() {
    let t = point("2016-12-31-23-59-59-250");
    let d = Duration::from_milliseconds(2_500);

    assert_eq!(t.add_duration(d), point("2017-01-01-00-00-00-750"));
    assert_eq!(t.add_duration(d).sub_duration(d), t);
    assert_eq!(t.add_duration(d).duration_since(&t), d);
}

#[test]
fn difference_of_shift_is_the_duration() {
    let t = point("2027-04-20-13-45-30-250");
    let d = Duration::from_milliseconds(-3_601_750);

    assert_eq!(t.add_duration(d).duration_since(&t), d);
    assert_eq!(t.duration_since(&t.add_duration(d)), Duration::from_milliseconds(3_601_750));
}

#[test]
fn tai_round_trip_for_a_leap_second() {
    let utc = point("2015-06-30-23-59-60");
    let tai = utc_to_tai(&utc).unwrap();

    assert_eq!(tai.second, 35);
    assert_eq!(tai_to_utc(&tai).unwrap(), utc);
}

#[test]
fn tai_round_trip_fails_only_before_the_first_table_row() {
    let utc = point("1971-12-31-23-59-60");
    let back = tai_to_utc(&utc_to_tai(&utc).unwrap()).unwrap();

    assert_eq!(back, point("1972-01-01-00-00-00"));
}

#[test]
fn fixed_zone_round_trip() {
    let local = point("2027-01-01-02-30-00").with_zone(TimeZone::fixed(5, 30).unwrap());
    let utc = local.to_utc().unwrap();

    assert_eq!(utc, point("2026-12-31-21-00-00"));
    assert_eq!(utc.convert_to(local.zone).unwrap(), local);
}

#[test]
fn fixed_zone_conversions_keep_milliseconds() {
    let utc = point("2027-01-01-12-00-00-250");
    let zone = TimeZone::fixed(5, 30).unwrap();
    let local = utc.convert_to(zone).unwrap();

    assert_eq!((local.hour, local.minute, local.second, local.millisecond), (17, 30, 0, 250));
    assert_eq!(local.to_utc().unwrap(), utc);
    assert_eq!(local.as_utc().unwrap(), utc);
}

#[test]
fn negative_offsets_carry_their_minutes_behind_utc() {
    let zone = TimeZone::Fixed { hours: -5, minutes: 30 };

    assert_eq!(zone.offset_label(), "-05:30");
    assert_eq!(zone.utc_offset_seconds(), Ok(-19_800));
    assert_eq!(TimeZone::fixed(5, 30).unwrap().utc_offset_seconds(), Ok(19_800));
    let local = point("2027-01-01-02-30-00").with_zone(zone);
    assert_eq!(local.to_utc().unwrap(), point("2027-01-01-08-00-00"));
}

#[test]
fn unix_round_trip() {
    let t = point("2000-02-29-23-59-59");
    let ts = to_unix_timestamp(&t).unwrap();

    assert_eq!(ts, 951_868_799);
    assert_eq!(from_unix_timestamp(ts), t);
}

#[test]
fn date_keys_decode_and_order() {
    let key = encode_date(9999, 12, 31);

    assert_eq!((decode_year(key), decode_month(key), decode_day(key)), (9999, 12, 31));
    assert!(encode_date(2027, 12, 31) < encode_date(2028, 1, 1));
}

#[test]
fn datetime_keys_follow_point_order() {
    let a = point("2027-04-20-13-45-30-999");
    let b = point("2027-04-20-13-45-31-000");

    assert!(a < b);
    assert!(a.boundary_key() < b.boundary_key());
    assert!(
        encode_datetime(2027, 4, 20, 13, 45, 30, 999) < encode_datetime(2027, 4, 20, 13, 45, 31, 0)
    );
}

#[test]
fn points_compare_by_wall_clock_alone() {
    let a = point("2027-04-20-13-00-00");
    let b = TimePoint { precision: Precision::Hour, ..a };

    assert_ne!(a, b);
    assert_eq!(a.partial_cmp(&b), Some(std::cmp::Ordering::Equal));
    assert!(point("2027-04-20") > point("2027-04-19-23-59-59-999"));
}

#[test]
fn period_plus_its_negation_is_zero() {
    let p = Period::new(1, 14, -3, 25, 61, 61, 1001);

    assert_eq!(p + (-p), Period::zero());
    assert_eq!(-(-p), p);
}

#[test]
fn normalizing_keeps_the_amount() {
    let p = Period::new(0, 25, 0, 0, 0, 0, -1);

    assert_eq!((p.years(), p.months()), (2, 1));
    assert_eq!(
        (p.hours(), p.minutes(), p.seconds(), p.milliseconds()),
        (-1, 59, 59, 999)
    );
}

#[test]
fn arithmetic_keeps_zone_precision_and_uncertainty() {
    let t = point("2027-04-20-13")
        .with_zone(TimeZone::fixed(-3, 0).unwrap())
        .with_uncertainty(date_time::uncertainty::Uncertainty::from_seconds(5));
    let moved = t.add_period(Period::new(0, 1, 1, 1, 0, 0, 0));

    assert_eq!(moved.zone, t.zone);
    assert_eq!(moved.precision, Precision::Hour);
    assert_eq!(moved.uncertainty, t.uncertainty);
    assert_eq!((moved.month, moved.day, moved.hour), (5, 21, 14));
}

#[test]
fn whole_seconds_and_remainder_make_up_a_duration() {
    let d = Duration::from_milliseconds(-4_321);

    assert_eq!(d.seconds(), -4);
    assert_eq!(d.subsec_milliseconds(), -321);
    assert_eq!(d.seconds() * 1000 + d.subsec_milliseconds(), d.milliseconds());
}
