use time::Date;
use utid::{ConstantSegment, RandomSegment, Spec, Spec2, TimestampSegment, TimestampUnit};

#[test]
fn entire_constant() {
    let spec = Spec {
        segment: ConstantSegment::new(128, 12345),
    };

    let generated = spec.generate().unwrap();
    assert_eq!(12345, generated);

    let constant = spec.decompose(generated).unwrap();
    assert_eq!(12345, constant);
}

#[test]
fn entire_random() {
    let spec = Spec {
        segment: RandomSegment::new(128),
    };

    let generated = spec.generate().unwrap();

    let random_number = spec.decompose(generated).unwrap();
    assert_eq!(generated, random_number);
    println!("Full bits of random: {}", generated);
}

#[test]
fn entire_timestamp() {
    let spec = Spec {
        segment: TimestampSegment::new_with_utc_midnight(
            128,
            TimestampUnit::Nanoseconds,
            Date::from_calendar_date(2023, time::Month::January, 1).unwrap(),
        ),
    };
    let generated = spec.generate().unwrap();

    let timestamp = spec.decompose(generated).unwrap();
    println!("Full bits of timestamp: {} ({})", generated, timestamp);
}

#[test]
fn constant_and_random() {
    let spec = Spec2 {
        segments: (ConstantSegment::new(48, 12345), RandomSegment::new(80)),
    };
    let generated = spec.generate().unwrap();
    let (constant, random) = spec.decompose(generated).unwrap();
    println!("Constant: {}, random: {}", constant, random);
}
