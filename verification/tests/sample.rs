use bevy_diagnostic_visualizer::Sample;

fn sample(value: f64) -> Sample {
    Sample::from_bits(value.to_bits()).unwrap()
}

#[test]
fn finite_numbers_are_measurements() {
    for value in [0.0, -0.0, 1.0, -1.0, 0.0167, 1.0e300, -1.0e-300, f64::MAX, f64::MIN, f64::MIN_POSITIVE] {
        let taken = Sample::from_bits(value.to_bits());
        assert!(taken.is_some());
        assert_eq!(taken.unwrap().to_bits(), value.to_bits());
        assert_eq!(f64::from_bits(taken.unwrap().to_bits()), value);
    }
}

#[test]
fn infinities_and_nans_are_no_measurements() {
    assert!(Sample::from_bits(f64::INFINITY.to_bits()).is_none());
    assert!(Sample::from_bits(f64::NEG_INFINITY.to_bits()).is_none());
    assert!(Sample::from_bits(f64::NAN.to_bits()).is_none());
    assert!(Sample::from_bits(0x7ff0_0000_0000_0001).is_none());
    assert!(Sample::from_bits(0xfff8_0000_0000_0000).is_none());
    assert!(Sample::from_bits(0x7fef_ffff_ffff_ffff).is_some());
}

#[test]
fn zero_and_one() {
    assert_eq!(sample(0.0).to_bits(), 0.0f64.to_bits());
    assert_eq!(f64::from_bits(Sample::one().to_bits()), 1.0);
    assert_eq!(sample(0.0).order_key(), 0);
    assert!(sample(0.0).is_zero());
    assert!(sample(-0.0).is_zero());
    assert!(!Sample::one().is_zero());
    assert!(!sample(f64::MIN_POSITIVE).is_zero());
}

#[test]
fn order_key_has_the_expected_values() {
    assert_eq!(sample(0.0).order_key(), 0);
    assert_eq!(sample(-0.0).order_key(), 0);
    assert_eq!(sample(1.0).order_key(), 0x3ff0_0000_0000_0000);
    assert_eq!(sample(-1.0).order_key(), -0x3ff0_0000_0000_0000);
    assert_eq!(sample(2.0).order_key(), 0x4000_0000_0000_0000);
    assert_eq!(sample(f64::MAX).order_key(), 0x7fef_ffff_ffff_ffff);
    assert_eq!(sample(f64::MIN).order_key(), -0x7fef_ffff_ffff_ffff);
}

#[test]
fn order_key_follows_the_order_of_the_numbers() {
    let values = [
        f64::MIN,
        -1.0e300,
        -1000.5,
        -1.0,
        -0.0167,
        -f64::MIN_POSITIVE,
        -5.0e-324,
        0.0,
        5.0e-324,
        f64::MIN_POSITIVE,
        0.0167,
        0.5,
        1.0,
        16.7,
        1000.5,
        1.0e300,
        f64::MAX,
    ];
    for a in values {
        for b in values {
            assert_eq!(sample(a).order_key() < sample(b).order_key(), a < b);
            assert_eq!(sample(a).order_key() == sample(b).order_key(), a == b);
            assert_eq!(sample(a).less_than(&sample(b)), a < b);
        }
    }
}

#[test]
fn both_zeros_are_ordered_alike() {
    assert_eq!(sample(0.0).order_key(), sample(-0.0).order_key());
    assert!(!sample(-0.0).less_than(&sample(0.0)));
    assert!(!sample(0.0).less_than(&sample(-0.0)));
    assert!(sample(-0.0).less_than(&sample(5.0e-324)));
    assert!(sample(-5.0e-324).less_than(&sample(-0.0)));
}
