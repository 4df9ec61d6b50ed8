use time::duration::Duration;

#[test]
fn construction_brings_to_canonical_form() {
    let d = Duration::new(1, -500_000_000);
    assert_eq!(d.whole_seconds(), 0);
    assert_eq!(d.subsec_nanoseconds(), 500_000_000);
    let d = Duration::new(-1, 500_000_000);
    assert_eq!(d.whole_seconds(), 0);
    assert_eq!(d.subsec_nanoseconds(), -500_000_000);
    let d = Duration::new(1, 2_000_000_000);
    assert_eq!((d.whole_seconds(), d.subsec_nanoseconds()), (3, 0));
    let d = Duration::new(-3, -1_500_000_000);
    assert_eq!((d.whole_seconds(), d.subsec_nanoseconds()), (-4, -500_000_000));
    assert_eq!(Duration::new(0, 0), Duration::zero());
    assert_eq!(Duration::checked_new(i64::MAX, 1_000_000_000), None);
    assert_eq!(Duration::checked_new(i64::MIN, -1_000_000_000), None);
    assert_eq!(Duration::checked_new(i64::MAX, 999_999_999), Some(Duration::max_value()));
    assert_eq!(Duration::checked_new(i64::MIN, -999_999_999), Some(Duration::min_value()));
    assert_eq!(Duration::checked_new(5, -1), Some(Duration::new(4, 999_999_999)));
}

#[test]
fn unit_constructors() {
    assert_eq!(Duration::weeks(1).whole_seconds(), 604_800);
    assert_eq!(Duration::days(1).whole_seconds(), 86_400);
    assert_eq!(Duration::hours(-2).whole_seconds(), -7_200);
    assert_eq!(Duration::minutes(3).whole_seconds(), 180);
    assert_eq!(Duration::seconds(7).whole_nanoseconds(), 7_000_000_000);
    assert_eq!(Duration::milliseconds(1_500), Duration::new(1, 500_000_000));
    assert_eq!(Duration::milliseconds(-1_500), Duration::new(-1, -500_000_000));
    assert_eq!(Duration::microseconds(-1), Duration::new(0, -1_000));
    assert_eq!(Duration::nanoseconds(1_000_000_001), Duration::new(1, 1));
    assert_eq!(Duration::nanoseconds(i64::MIN).whole_nanoseconds(), i64::MIN as i128);
}

#[test]
fn whole_units_round_towards_zero() {
    let d = Duration::new(-90_061, -1_500_000);
    assert_eq!(d.whole_weeks(), 0);
    assert_eq!(d.whole_days(), -1);
    assert_eq!(d.whole_hours(), -25);
    assert_eq!(d.whole_minutes(), -1_501);
    assert_eq!(d.whole_seconds(), -90_061);
    assert_eq!(d.whole_milliseconds(), -90_061_001);
    assert_eq!(d.whole_microseconds(), -90_061_001_500);
    assert_eq!(d.whole_nanoseconds(), -90_061_001_500_000);
    assert_eq!(d.subsec_milliseconds(), -1);
    assert_eq!(d.subsec_microseconds(), -1_500);
    assert_eq!(d.subsec_nanoseconds(), -1_500_000);
    assert_eq!(Duration::days(15).whole_weeks(), 2);
}

#[test]
fn sign_queries() {
    assert!(Duration::zero().is_zero());
    assert!(!Duration::zero().is_negative());
    assert!(!Duration::zero().is_positive());
    assert!(Duration::nanoseconds(-1).is_negative());
    assert!(Duration::nanoseconds(1).is_positive());
    assert!(!Duration::nanoseconds(1).is_zero());
    assert_eq!(Duration::seconds(-5).abs(), Duration::seconds(5));
    assert_eq!(Duration::new(-5, -7).abs(), Duration::new(5, 7));
    assert_eq!(Duration::seconds(5).abs(), Duration::seconds(5));
    assert_eq!(Duration::min_value().abs(), Duration::max_value());
}

#[test]
fn sums_are_canonical_and_undone_by_subtraction() {
    let values = [
        Duration::new(5, 600_000_000),
        Duration::new(-5, -600_000_000),
        Duration::new(0, 999_999_999),
        Duration::new(0, -999_999_999),
        Duration::new(1, 1),
        Duration::zero(),
        Duration::seconds(-86_400),
    ];
    for a in values {
        for b in values {
            let sum = a.checked_add(b).unwrap();
            let seconds = sum.whole_seconds();
            let nanoseconds = sum.subsec_nanoseconds();
            assert!(nanoseconds == 0 || (seconds >= 0) == (nanoseconds > 0) || seconds == 0);
            assert!(nanoseconds.abs() < 1_000_000_000);
            assert_eq!(sum.whole_nanoseconds(), a.whole_nanoseconds() + b.whole_nanoseconds());
            assert_eq!(sum.checked_sub(b), Some(a));
        }
    }
    assert_eq!(
        Duration::new(5, 600_000_000).checked_add(Duration::new(-5, -700_000_000)),
        Some(Duration::new(0, -100_000_000))
    );
    assert_eq!(
        Duration::new(0, 600_000_000).checked_add(Duration::new(0, 700_000_000)),
        Some(Duration::new(1, 300_000_000))
    );
}

#[test]
fn checked_arithmetic_fails_on_overflow() {
    assert_eq!(Duration::max_value().checked_add(Duration::nanoseconds(1)), None);
    assert_eq!(Duration::min_value().checked_sub(Duration::nanoseconds(1)), None);
    assert_eq!(Duration::min_value().checked_add(Duration::nanoseconds(-1)), None);
    assert_eq!(Duration::max_value().checked_add(Duration::zero()), Some(Duration::max_value()));
    assert_eq!(Duration::min_value().checked_neg(), None);
    assert_eq!(Duration::max_value().checked_neg(), Some(Duration::new(-i64::MAX, -999_999_999)));
    assert_eq!(Duration::seconds(3).checked_neg(), Some(Duration::seconds(-3)));
    assert_eq!(Duration::seconds(i64::MAX).checked_mul(2), None);
    assert_eq!(Duration::seconds(i64::MIN).checked_mul(2), None);
    assert_eq!(Duration::new(1, 500_000_000).checked_mul(3), Some(Duration::new(4, 500_000_000)));
    assert_eq!(Duration::new(1, 500_000_000).checked_mul(-3), Some(Duration::new(-4, -500_000_000)));
    assert_eq!(Duration::seconds(5).checked_mul(0), Some(Duration::zero()));
    assert_eq!(Duration::seconds(1).checked_div(0), None);
    assert_eq!(Duration::seconds(1).checked_div(2), Some(Duration::milliseconds(500)));
    assert_eq!(Duration::seconds(1).checked_div(-2), Some(Duration::milliseconds(-500)));
    assert_eq!(Duration::nanoseconds(7).checked_div(2), Some(Duration::nanoseconds(3)));
    assert_eq!(Duration::nanoseconds(-7).checked_div(2), Some(Duration::nanoseconds(-3)));
    assert_eq!(Duration::nanoseconds(-7).checked_div(-2), Some(Duration::nanoseconds(3)));
    assert_eq!(Duration::min_value().checked_div(-1), None);
    assert_eq!(Duration::min_value().checked_div(1), Some(Duration::min_value()));
    assert_eq!(
        Duration::max_value().checked_div(-1),
        Some(Duration::new(-i64::MAX, -999_999_999))
    );
}

#[test]
fn saturating_arithmetic_clamps() {
    assert_eq!(Duration::max_value().saturating_add(Duration::seconds(1)), Duration::max_value());
    assert_eq!(Duration::min_value().saturating_add(Duration::seconds(-1)), Duration::min_value());
    assert_eq!(Duration::min_value().saturating_sub(Duration::seconds(1)), Duration::min_value());
    assert_eq!(Duration::max_value().saturating_sub(Duration::seconds(-1)), Duration::max_value());
    assert_eq!(Duration::seconds(1).saturating_add(Duration::seconds(2)), Duration::seconds(3));
    assert_eq!(Duration::seconds(1).saturating_sub(Duration::seconds(2)), Duration::seconds(-1));
    assert_eq!(Duration::seconds(i64::MAX).saturating_mul(2), Duration::max_value());
    assert_eq!(Duration::seconds(i64::MAX).saturating_mul(-2), Duration::min_value());
    assert_eq!(Duration::seconds(i64::MIN).saturating_mul(2), Duration::min_value());
    assert_eq!(Duration::seconds(2).saturating_mul(-2), Duration::seconds(-4));
}

#[test]
fn extremes() {
    assert_eq!(Duration::max_value().whole_seconds(), i64::MAX);
    assert_eq!(Duration::max_value().subsec_nanoseconds(), 999_999_999);
    assert_eq!(Duration::min_value().whole_seconds(), i64::MIN);
    assert_eq!(Duration::min_value().subsec_nanoseconds(), -999_999_999);
    assert!(Duration::min_value() < Duration::zero());
    assert!(Duration::zero() < Duration::max_value());
    assert!(Duration::new(0, -1) < Duration::zero());
    assert!(Duration::new(0, -1).is_less_than(Duration::zero()));
    assert!(Duration::new(1, 1).is_less_than(Duration::new(1, 2)));
    assert!(Duration::new(-2, 0).is_less_than(Duration::new(-1, -999_999_999)));
    assert!(!Duration::new(1, 2).is_less_than(Duration::new(1, 2)));
    assert!(!Duration::max_value().is_less_than(Duration::min_value()));
}
