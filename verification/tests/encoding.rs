use bearing_fix::binary64::Double;

fn d(x: f64) -> Double {
    Double::from_bits(x.to_bits())
}

fn samples() -> Vec<f64> {
    vec![
        0.0,
        -0.0,
        1.0,
        -1.0,
        0.5,
        -0.5,
        90.0,
        -90.0,
        180.0,
        -180.0,
        360.0,
        1.0e-320,
        -1.0e-320,
        f64::MIN_POSITIVE,
        -f64::MIN_POSITIVE,
        f64::MAX,
        f64::MIN,
        f64::INFINITY,
        f64::NEG_INFINITY,
        f64::NAN,
        -f64::NAN,
        f64::EPSILON,
        37.86203,
        -119.43397,
        f64::from_bits(0x4056_8000_0000_0001),
        f64::from_bits(0xC056_8000_0000_0001),
        f64::from_bits(1),
        f64::from_bits(0x8000_0000_0000_0001),
    ]
}

#[test]
fn bits_round_trip() {
    for x in samples() {
        assert_eq!(d(x).to_bits(), x.to_bits());
    }
}

#[test]
fn le_agrees_with_float_comparison() {
    for a in samples() {
        for b in samples() {
            assert_eq!(d(a).le(d(b)), a <= b, "{:?} <= {:?}", a, b);
        }
    }
}

#[test]
fn lt_agrees_with_float_comparison() {
    for a in samples() {
        for b in samples() {
            assert_eq!(d(a).lt(d(b)), a < b, "{:?} < {:?}", a, b);
        }
    }
}

#[test]
fn eq_agrees_with_float_comparison() {
    for a in samples() {
        for b in samples() {
            assert_eq!(d(a).eq(d(b)), a == b, "{:?} == {:?}", a, b);
        }
    }
}

#[test]
fn is_within_agrees_with_range_contains() {
    for x in samples() {
        assert_eq!(d(x).is_within(d(-90.0), d(90.0)), (-90.0..=90.0).contains(&x));
        assert_eq!(d(x).is_within(d(0.0), d(360.0)), (0.0..=360.0).contains(&x));
    }
}

#[test]
fn nan_and_zero_are_recognised() {
    for x in samples() {
        assert_eq!(d(x).is_nan(), x.is_nan());
        assert_eq!(d(x).is_zero(), x == 0.0);
    }
}

#[test]
fn zeros_are_equal_but_keep_their_bits() {
    assert!(d(0.0).eq(d(-0.0)));
    assert!(d(-0.0).le(d(0.0)));
    assert!(d(0.0).le(d(-0.0)));
    assert_ne!(d(0.0).to_bits(), d(-0.0).to_bits());
}

#[test]
fn nan_compares_with_nothing() {
    assert!(!d(f64::NAN).eq(d(f64::NAN)));
    assert!(!d(f64::NAN).le(d(f64::NAN)));
    assert!(!d(f64::NAN).lt(d(1.0)));
    assert!(!d(1.0).lt(d(f64::NAN)));
}

#[test]
fn from_u32_agrees_with_float_conversion() {
    let values = [
        0u32, 1, 2, 3, 4, 5, 7, 8, 9, 10, 45, 89, 90, 91, 179, 180, 181, 255, 256, 359, 360, 361,
        1000, 65535, 65536, 1_000_000, 16_777_215, 16_777_216, 16_777_217, 2_147_483_647,
        2_147_483_648, 4_294_967_294, 4_294_967_295,
    ];
    for n in values {
        assert_eq!(Double::from_u32(n).to_bits(), f64::from(n).to_bits(), "{}", n);
    }
}

#[test]
fn from_i32_agrees_with_float_conversion() {
    let values = [
        0i32, 1, -1, 2, -2, 3, -3, 90, -90, 180, -180, 360, -360, 12345, -12345, 8_388_608,
        -8_388_609, i32::MAX, i32::MIN, i32::MIN + 1, i32::MAX - 1,
    ];
    for n in values {
        assert_eq!(Double::from_i32(n).to_bits(), f64::from(n).to_bits(), "{}", n);
    }
}

#[test]
fn powers_of_two_convert_exactly() {
    for k in 0..32 {
        let n: u32 = 1 << k;
        assert_eq!(Double::from_u32(n).to_bits(), f64::from(n).to_bits());
        if k > 0 {
            assert_eq!(Double::from_u32(n - 1).to_bits(), f64::from(n - 1).to_bits());
        }
    }
}

#[test]
fn zero_converts_to_positive_zero() {
    assert_eq!(Double::from_i32(0).to_bits(), 0);
    assert_eq!(Double::from_u32(0).to_bits(), 0);
}
