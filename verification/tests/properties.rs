use time::Date;
use utid::{
    ConstantSegment, Error, RandomSegment, Spec, Spec2, Spec3, SpecSegment, TimestampSegment,
    TimestampUnit,
};

#[test]
fn random_width_64_round_trips_within_range() {
    let spec = Spec {
        segment: RandomSegment::new(64),
    };
    let generated = spec.generate().unwrap();
    assert!(generated <= u64::MAX as u128);
    let decomposed = spec.decompose(generated).unwrap();
    assert_eq!(generated, decomposed);
}

#[test]
fn constant_overflow_fails_generate() {
    let spec = Spec {
        segment: ConstantSegment::new(8, 300),
    };
    assert!(matches!(spec.generate(), Err(Error::OverflowError)));
}

#[test]
fn constant_overflow_fails_in_composition() {
    let spec = Spec2 {
        segments: (ConstantSegment::new(16, 7), ConstantSegment::new(4, 16)),
    };
    assert!(matches!(spec.generate(), Err(Error::OverflowError)));
}

#[test]
fn width_conservation_at_full_container() {
    let spec = Spec2 {
        segments: (
            ConstantSegment::new(40, (1u128 << 40) - 1),
            ConstantSegment::new(88, (1u128 << 88) - 1),
        ),
    };
    let generated = spec.generate().unwrap();
    assert_eq!(u128::MAX, generated);
}

#[test]
fn upper_bound_uses_full_unsigned_range() {
    assert_eq!(u128::MAX, ConstantSegment::new(128, 0).upper_bound());
    assert_eq!(65535, RandomSegment::new(16).upper_bound());
    assert_eq!(1, ConstantSegment::new(1, 0).upper_bound());
}

#[test]
fn segment_sizes() {
    assert_eq!(8, ConstantSegment::new(8, 1).size());
    assert_eq!(64, RandomSegment::new(64).size());
}

#[test]
fn unit_conversion_values() {
    assert_eq!(1, TimestampUnit::Milliseconds.from_nano(1_999_999));
    assert_eq!(-1, TimestampUnit::Milliseconds.from_nano(-1_999_999));
    assert_eq!(2, TimestampUnit::Seconds.from_nano(2_000_000_001));
    assert_eq!(42, TimestampUnit::Nanoseconds.from_nano(42));
    assert_eq!(5_000_000, TimestampUnit::Milliseconds.to_nano(5));
    assert_eq!(7_000, TimestampUnit::Microseconds.to_nano(7));
    assert_eq!(-3_000_000_000, TimestampUnit::Seconds.to_nano(-3));
}

#[test]
fn timestamp_decodes_near_now() {
    let epoch = Date::from_calendar_date(2023, time::Month::January, 1).unwrap();
    let spec = Spec {
        segment: TimestampSegment::new_with_utc_midnight(64, TimestampUnit::Nanoseconds, epoch),
    };
    let generated = spec.generate().unwrap();
    let decoded = spec.decompose(generated).unwrap();
    let now = time::OffsetDateTime::now_utc().unix_timestamp_nanos();
    let tolerance: i128 = 60 * 1_000_000_000;
    assert!(decoded <= now + tolerance);
    assert!(decoded >= now - tolerance);
}

#[test]
fn timestamp_instants_non_decreasing() {
    let epoch = Date::from_calendar_date(2023, time::Month::January, 1).unwrap();
    let spec = Spec {
        segment: TimestampSegment::new_with_utc_midnight(40, TimestampUnit::Seconds, epoch),
    };
    let first = spec.decompose(spec.generate().unwrap()).unwrap();
    let second = spec.decompose(spec.generate().unwrap()).unwrap();
    assert!(first <= second);
}

#[test]
fn timestamp_upper_bound_is_latest_instant() {
    let epoch = Date::from_calendar_date(2023, time::Month::January, 1).unwrap();
    let seg = TimestampSegment::new_with_utc_midnight(20, TimestampUnit::Seconds, epoch);
    let epoch_nanos = epoch.midnight().assume_utc().unix_timestamp_nanos();
    let expected = epoch_nanos + ((1i128 << 20) - 1) * 1_000_000_000;
    assert_eq!(expected, seg.upper_bound());
}

#[test]
fn mixed_layout_round_trips_constants() {
    let spec = Spec3 {
        segments: (
            ConstantSegment::new(8, 200),
            RandomSegment::new(56),
            ConstantSegment::new(64, 17),
        ),
    };
    let generated = spec.generate().unwrap();
    let (first, second, third) = spec.decompose(generated).unwrap();
    assert_eq!(200, first);
    assert!(second <= (1u128 << 56) - 1);
    assert_eq!(17, third);
}
