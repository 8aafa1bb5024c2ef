use chrono::{DateTime, Utc};
use optical_detector::timestamp::{
    mono_ns_to_utc, mono_ns_to_utc_at, MonoTime, Timestamp, MAX_SECS, MIN_SECS,
};

fn at(secs: i64, nanos: u32) -> Timestamp {
    Timestamp::new(secs, nanos).unwrap()
}

#[test]
fn range_is_that_of_utc_date_times() {
    assert_eq!(DateTime::<Utc>::MIN_UTC.timestamp(), MIN_SECS);
    assert_eq!(DateTime::<Utc>::MIN_UTC.timestamp_subsec_nanos(), 0);
    assert_eq!(DateTime::<Utc>::MAX_UTC.timestamp(), MAX_SECS);
    assert_eq!(DateTime::<Utc>::MAX_UTC.timestamp_subsec_nanos(), 999_999_999);
    assert!(Timestamp::new(MIN_SECS, 0).is_some());
    assert!(Timestamp::new(MAX_SECS, 999_999_999).is_some());
    assert_eq!(Timestamp::new(MIN_SECS - 1, 0), None);
    assert_eq!(Timestamp::new(MAX_SECS + 1, 0), None);
    assert_eq!(Timestamp::new(0, 1_000_000_000), None);
}

#[test]
fn parts_come_back() {
    let t = at(-7, 250);
    assert_eq!(t.secs(), -7);
    assert_eq!(t.nanos(), 250);
}

#[test]
fn now_lies_between_two_readings_of_the_clock() {
    let before = Utc::now();
    let t = Timestamp::now();
    let after = Utc::now();
    let t = DateTime::from_timestamp(t.secs(), t.nanos()).unwrap();
    assert!(before <= t && t <= after);
}

#[test]
fn subtraction_borrows_and_carries() {
    assert_eq!(at(10, 5).minus_nanoseconds(2_000_000_010), Some(at(7, 999_999_995)));
    assert_eq!(at(10, 999_999_999).minus_nanoseconds(-1), Some(at(11, 0)));
    assert_eq!(at(0, 0).minus_nanoseconds(1), Some(at(-1, 999_999_999)));
    assert_eq!(at(10, 5).minus_nanoseconds(0), Some(at(10, 5)));
    assert_eq!(
        at(0, 0).minus_nanoseconds(i64::MAX),
        Some(at(-9_223_372_037, 145_224_193))
    );
    assert_eq!(
        at(0, 0).minus_nanoseconds(i64::MIN),
        Some(at(9_223_372_036, 854_775_808))
    );
}

#[test]
fn subtraction_past_the_range_fails() {
    assert_eq!(at(MIN_SECS, 0).minus_nanoseconds(1), None);
    assert_eq!(at(MIN_SECS, 1).minus_nanoseconds(1), Some(at(MIN_SECS, 0)));
    assert_eq!(at(MAX_SECS, 999_999_999).minus_nanoseconds(-1), None);
    assert_eq!(
        at(MAX_SECS, 999_999_998).minus_nanoseconds(-1),
        Some(at(MAX_SECS, 999_999_999))
    );
}

#[test]
fn microseconds_round_toward_zero() {
    assert_eq!(at(1, 1_999).microseconds_since(&at(0, 0)), Some(1_000_001));
    assert_eq!(at(0, 0).microseconds_since(&at(1, 1_999)), Some(-1_000_001));
    assert_eq!(at(0, 999).microseconds_since(&at(0, 0)), Some(0));
    assert_eq!(at(0, 0).microseconds_since(&at(0, 999)), Some(0));
    assert_eq!(at(2, 0).microseconds_since(&at(0, 999_999_999)), Some(1_000_000));
}

#[test]
fn microseconds_that_do_not_fit() {
    let first = at(MIN_SECS, 0);
    let last = at(MAX_SECS, 999_999_999);
    assert_eq!(last.microseconds_since(&first), None);
    assert_eq!(first.microseconds_since(&last), None);
    let from = at(-2_000_000_000_000, 0);
    // i64::MAX microseconds later, and one more.
    let to = at(7_223_372_036_854, 775_807_000);
    assert_eq!(to.microseconds_since(&from), Some(i64::MAX));
    assert_eq!(from.microseconds_since(&to), Some(-i64::MAX));
    let past = at(7_223_372_036_854, 775_808_000);
    assert_eq!(past.microseconds_since(&from), None);
    assert_eq!(from.microseconds_since(&past), Some(i64::MIN));
    let past = at(7_223_372_036_854, 775_809_000);
    assert_eq!(from.microseconds_since(&past), None);
}

#[test]
fn time_of_day_has_six_fraction_digits() {
    assert_eq!(at(1_700_000_000, 123_456_789).time_of_day(), "22:13:20.123456");
    assert_eq!(at(0, 0).time_of_day(), "00:00:00.000000");
    assert_eq!(at(3_723, 4_005_999).time_of_day(), "01:02:03.004005");
    assert_eq!(at(-1, 999_999_999).time_of_day(), "23:59:59.999999");
    assert_eq!(at(MIN_SECS, 0).time_of_day(), "00:00:00.000000");
    assert_eq!(at(MAX_SECS, 999_999_999).time_of_day(), "23:59:59.999999");
}

#[test]
fn age_is_the_difference_of_readings() {
    let now = MonoTime { tv_sec: 5, tv_nsec: 250 };
    assert_eq!(now.age_ns(5_000_000_000), Some(250));
    assert_eq!(now.age_ns(5_000_001_000), Some(-750));
    assert_eq!(now.sync_age_us(4_999_998_000), Some(2));
    assert_eq!(now.sync_age_us(5_000_002_249), Some(-1));
    assert_eq!(now.sync_age_us(5_000_000_000), Some(0));
}

#[test]
fn age_that_overflows_has_none() {
    let seconds = MonoTime { tv_sec: 9_223_372_037, tv_nsec: -1_000_000_000 };
    assert_eq!(seconds.age_ns(0), None);
    let sum = MonoTime { tv_sec: 9_223_372_036, tv_nsec: 854_775_808 };
    assert_eq!(sum.age_ns(0), None);
    assert_eq!(sum.sync_age_us(0), None);
    let last = MonoTime { tv_sec: 9_223_372_036, tv_nsec: 854_775_807 };
    assert_eq!(last.age_ns(0), Some(i64::MAX));
    assert_eq!(last.age_ns(-1), None);
    assert_eq!(mono_ns_to_utc(-1, &last), None);
    assert_eq!(mono_ns_to_utc_at(-1, &last, &at(0, 0)), None);
}

#[test]
fn events_keep_age_and_spacing() {
    let mono_now = MonoTime { tv_sec: 100, tv_nsec: 500 };
    let now = at(1_700_000_000, 0);
    let this_moment = mono_ns_to_utc_at(100_000_000_500, &mono_now, &now).unwrap();
    assert_eq!(this_moment, now);
    let first = mono_ns_to_utc_at(99_000_000_000, &mono_now, &now).unwrap();
    assert_eq!(first, at(1_699_999_998, 999_999_500));
    let second = mono_ns_to_utc_at(99_000_007_000, &mono_now, &now).unwrap();
    assert_eq!(second.microseconds_since(&first), Some(7));
    // Latency at the moment of conversion is the age.
    assert_eq!(now.microseconds_since(&first), Some(1_000_000));
    assert_eq!(mono_now.age_ns(99_000_000_000), Some(1_000_000_500));
}

#[test]
fn an_event_of_this_moment_gets_the_wall_clock_time() {
    let before = Timestamp::now();
    let t = mono_ns_to_utc(7_000_000_003, &MonoTime { tv_sec: 7, tv_nsec: 3 }).unwrap();
    let after = Timestamp::now();
    assert!(t.microseconds_since(&before).unwrap() >= 0);
    assert!(after.microseconds_since(&t).unwrap() >= 0);
}

#[test]
fn an_instant_out_of_range_has_no_wall_clock_time() {
    let mono_now = MonoTime { tv_sec: 0, tv_nsec: 0 };
    assert_eq!(mono_ns_to_utc_at(1, &mono_now, &at(MAX_SECS, 999_999_999)), None);
}
