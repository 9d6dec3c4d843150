use portway::sensitivity::{is_sensitivity_in_range, scale_pointer};

fn by_float(value: i32, sensitivity: f64) -> i32 {
    ((f64::from(value) * sensitivity).round() as i32).clamp(-10_240, 10_240)
}

#[test]
fn scales_as_binary64_arithmetic_does() {
    let sensitivities = [
        0.1, 0.25, 0.3, 0.5, 0.7, 1.0, 1.1, 1.5, 2.0, 2.5, 3.3, 4.999, 5.0, -1.5, 0.0, -0.0, 1e-300,
        1e300, f64::MIN_POSITIVE, 5e-324, f64::INFINITY, f64::NEG_INFINITY, f64::NAN, 0.499_999_99,
    ];
    for sensitivity in sensitivities {
        for value in -2_100..=2_100 {
            assert_eq!(
                scale_pointer(value, sensitivity.to_bits()),
                by_float(value, sensitivity),
                "{value} * {sensitivity}"
            );
        }
        for value in [i32::MIN, i32::MAX, -1_000_000, 1_000_000] {
            assert_eq!(
                scale_pointer(value, sensitivity.to_bits()),
                by_float(value, sensitivity)
            );
        }
    }
}

#[test]
fn scales_as_binary64_arithmetic_does_on_many_patterns() {
    let mut bits: u64 = 0x9e37_79b9_7f4a_7c15;
    for _ in 0..200_000 {
        bits ^= bits << 13;
        bits ^= bits >> 7;
        bits ^= bits << 17;
        let value = (bits >> 40) as i32 % 2_049;
        assert_eq!(
            scale_pointer(value, bits),
            by_float(value, f64::from_bits(bits))
        );
        // The same pattern, brought near the range of a sensitivity.
        let near = (bits & 0x800f_ffff_ffff_ffff) | ((1_019 + (bits >> 60)) << 52);
        assert_eq!(
            scale_pointer(value, near),
            by_float(value, f64::from_bits(near))
        );
    }
}

#[test]
fn halves_are_rounded_away_from_zero() {
    assert_eq!(scale_pointer(3, 0.5_f64.to_bits()), 2);
    assert_eq!(scale_pointer(-3, 0.5_f64.to_bits()), -2);
    assert_eq!(scale_pointer(4, 1.5_f64.to_bits()), 6);
    assert_eq!(scale_pointer(2_048, 5.0_f64.to_bits()), 10_240);
    assert_eq!(scale_pointer(2_048, 6.0_f64.to_bits()), 10_240);
}

#[test]
fn one_changes_nothing() {
    for value in -10_240..=10_240 {
        assert_eq!(scale_pointer(value, 1.0_f64.to_bits()), value);
    }
}

#[test]
fn the_range_of_a_sensitivity_is_that_of_its_numbers() {
    for sensitivity in [0.1, 0.100_000_000_000_000_02, 1.0, 4.999_999_999, 5.0] {
        assert!(is_sensitivity_in_range(f64::to_bits(sensitivity)));
    }
    for sensitivity in [
        0.099_999_999_999_999_99, 5.000_000_000_000_001, -1.0, 0.0, -0.0, f64::NAN, f64::INFINITY,
    ] {
        assert!(!is_sensitivity_in_range(f64::to_bits(sensitivity)));
    }
}
