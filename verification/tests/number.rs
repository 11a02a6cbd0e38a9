//! Doubles by their bits.

use perry::number::{
    is_below_zero, is_finite, is_nan, is_zero, numbers_equal, to_exact_i32, to_index, to_u32,
};

const SAMPLES: [f64; 30] = [
    0.0,
    -0.0,
    0.5,
    -0.5,
    0.9999999999999999,
    1.0,
    -1.0,
    1.5,
    2.0,
    3.7,
    -3.7,
    255.0,
    65536.0,
    1e9,
    2147483646.5,
    2147483647.0,
    2147483648.0,
    -2147483648.0,
    -2147483648.5,
    -2147483649.0,
    4294967294.5,
    4294967295.0,
    4294967295.5,
    4294967296.0,
    1e20,
    f64::MIN_POSITIVE,
    5e-324,
    f64::MAX,
    f64::INFINITY,
    f64::NEG_INFINITY,
];

#[test]
fn conversion_to_u32_truncates_and_saturates() {
    for x in SAMPLES {
        assert_eq!(to_u32(x.to_bits()), x as u32, "{}", x);
    }
    assert_eq!(to_u32(f64::NAN.to_bits()), 0);
    assert_eq!(to_u32(3.99f64.to_bits()), 3);
    assert_eq!(to_u32((-1.0f64).to_bits()), 0);
    assert_eq!(to_u32(1e300f64.to_bits()), u32::MAX);
}

#[test]
fn whole_numbers_are_found_exactly() {
    for x in SAMPLES {
        let i = x as i32;
        let expected = if i as f64 == x { Some(i) } else { None };
        assert_eq!(to_exact_i32(x.to_bits()), expected, "{}", x);
    }
    assert_eq!(to_exact_i32(f64::NAN.to_bits()), None);
    assert_eq!(to_exact_i32((-0.0f64).to_bits()), Some(0));
    assert_eq!(to_exact_i32((-2147483648.0f64).to_bits()), Some(i32::MIN));
}

#[test]
fn number_equality_is_that_of_doubles() {
    for x in SAMPLES {
        for y in SAMPLES {
            assert_eq!(numbers_equal(x.to_bits(), y.to_bits()), x == y, "{} {}", x, y);
        }
        assert!(!numbers_equal(x.to_bits(), f64::NAN.to_bits()));
    }
    assert!(!numbers_equal(f64::NAN.to_bits(), f64::NAN.to_bits()));
}

#[test]
fn indices_are_whole_parts_within_range() {
    for x in SAMPLES {
        let expected = if x.is_finite() && x >= 0.0 && x <= u32::MAX as f64 {
            x as u32
        } else {
            u32::MAX
        };
        assert_eq!(to_index(x.to_bits()), expected, "{}", x);
    }
    assert_eq!(to_index(f64::NAN.to_bits()), u32::MAX);
    assert_eq!(to_index(7.25f64.to_bits()), 7);
    assert_eq!(to_index((-0.0f64).to_bits()), 0);
    assert_eq!(to_index((-0.25f64).to_bits()), u32::MAX);
}

#[test]
fn sorts_of_doubles_are_told_apart() {
    for x in SAMPLES {
        let bits = x.to_bits();
        assert_eq!(is_nan(bits), x.is_nan());
        assert_eq!(is_finite(bits), x.is_finite());
        assert_eq!(is_zero(bits), x == 0.0);
        if x.is_finite() {
            assert_eq!(is_below_zero(bits), x < 0.0);
        }
    }
    assert!(is_nan(f64::NAN.to_bits()));
    assert!(!is_finite(f64::NAN.to_bits()));
}
