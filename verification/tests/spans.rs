use moonwatch_rs::json_value::JsonNumber;
use moonwatch_rs::span::TimeSpan;

fn number(positive: bool, mantissa: u64, exponent: i16) -> JsonNumber {
    JsonNumber { positive, mantissa, exponent }
}

#[test]
fn whole_seconds_become_nanoseconds() {
    assert_eq!(TimeSpan::from_decimal_seconds(&number(true, 1, 0)), Some(TimeSpan { nanos: 1_000_000_000 }));
    assert_eq!(TimeSpan::from_decimal_seconds(&number(true, 5, 0)), Some(TimeSpan { nanos: 5_000_000_000 }));
    assert_eq!(TimeSpan::from_decimal_seconds(&number(true, 0, 0)), Some(TimeSpan { nanos: 0 }));
}

#[test]
fn fractions_of_a_second_become_nanoseconds() {
    assert_eq!(TimeSpan::from_decimal_seconds(&number(true, 15, -1)), Some(TimeSpan { nanos: 1_500_000_000 }));
    assert_eq!(TimeSpan::from_decimal_seconds(&number(true, 25, -2)), Some(TimeSpan { nanos: 250_000_000 }));
    assert_eq!(TimeSpan::from_decimal_seconds(&number(true, 5, -4)), Some(TimeSpan { nanos: 500_000 }));
    assert_eq!(TimeSpan::from_decimal_seconds(&number(true, 19999, -4)), Some(TimeSpan { nanos: 1_999_900_000 }));
    assert_eq!(TimeSpan::from_decimal_seconds(&number(true, 1, -9)), Some(TimeSpan { nanos: 1 }));
}

#[test]
fn fractions_of_a_nanosecond_are_cut_off() {
    assert_eq!(TimeSpan::from_decimal_seconds(&number(true, 19999, -13)), Some(TimeSpan { nanos: 1 }));
    assert_eq!(TimeSpan::from_decimal_seconds(&number(true, 4, -10)), Some(TimeSpan { nanos: 0 }));
    assert_eq!(TimeSpan::from_decimal_seconds(&number(true, 1, -32768)), Some(TimeSpan { nanos: 0 }));
    assert_eq!(
        TimeSpan::from_decimal_seconds(&number(true, u64::MAX, -9)),
        Some(TimeSpan { nanos: u64::MAX })
    );
}

#[test]
fn exponents_scale_by_powers_of_ten() {
    assert_eq!(TimeSpan::from_decimal_seconds(&number(true, 1, 3)), Some(TimeSpan { nanos: 1_000_000_000_000 }));
    assert_eq!(
        TimeSpan::from_decimal_seconds(&number(true, 18, 9)),
        Some(TimeSpan { nanos: 18_000_000_000_000_000_000 })
    );
    assert_eq!(TimeSpan::from_decimal_seconds(&number(true, 0, 32767)), Some(TimeSpan { nanos: 0 }));
}

#[test]
fn times_too_long_for_the_type_are_refused() {
    assert_eq!(TimeSpan::from_decimal_seconds(&number(true, 19, 9)), None);
    assert_eq!(TimeSpan::from_decimal_seconds(&number(true, u64::MAX, 0)), None);
    assert_eq!(TimeSpan::from_decimal_seconds(&number(true, 1, 32767)), None);
    assert_eq!(TimeSpan::from_decimal_seconds(&number(true, u64::MAX, -8)), None);
}

#[test]
fn negative_times_are_refused() {
    assert_eq!(TimeSpan::from_decimal_seconds(&number(false, 1, 0)), None);
    assert_eq!(TimeSpan::from_decimal_seconds(&number(false, 0, 0)), None);
    assert_eq!(TimeSpan::from_decimal_seconds(&number(false, 15, -1)), None);
}

#[test]
fn seconds_are_rounded_to_the_nearest() {
    assert_eq!(TimeSpan { nanos: 0 }.whole_seconds(), 0);
    assert_eq!(TimeSpan { nanos: 499_999_999 }.whole_seconds(), 0);
    assert_eq!(TimeSpan { nanos: 500_000_000 }.whole_seconds(), 1);
    assert_eq!(TimeSpan::from_millis(1000).whole_seconds(), 1);
    assert_eq!(TimeSpan::from_millis(1499).whole_seconds(), 1);
    assert_eq!(TimeSpan::from_millis(1500).whole_seconds(), 2);
    assert_eq!(TimeSpan::from_millis(5000).whole_seconds(), 5);
    assert_eq!(TimeSpan { nanos: u64::MAX }.whole_seconds(), 18_446_744_074);
}

#[test]
fn milliseconds_become_nanoseconds() {
    assert_eq!(TimeSpan::from_millis(0), TimeSpan { nanos: 0 });
    assert_eq!(TimeSpan::from_millis(1), TimeSpan { nanos: 1_000_000 });
    assert_eq!(TimeSpan::from_millis(1530), TimeSpan { nanos: 1_530_000_000 });
    assert_eq!(TimeSpan::from_millis(18_446_744_073_709), TimeSpan { nanos: 18_446_744_073_709_000_000 });
    assert_eq!(TimeSpan::from_millis(18_446_744_073_710), TimeSpan { nanos: u64::MAX });
    assert_eq!(TimeSpan::from_millis(u64::MAX), TimeSpan { nanos: u64::MAX });
}
