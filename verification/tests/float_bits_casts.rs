//! Holds the crate's integer implementations of the IEEE-754 coercions to the
//! platform's native float casts on a spread of values.

use wasmer::float_bits::{
    f32_bits_to_f64_bits, f64_bits_to_f32_bits, f64_trunc_bits, i64_to_f32_bits, i64_to_f64_bits,
};

#[test]
fn widening_matches_native_cast() {
    let cases: Vec<f32> = vec![
        0.0,
        -0.0,
        1.0,
        -1.0,
        2.5,
        0.1,
        3.14159265,
        f32::MAX,
        f32::MIN_POSITIVE,
        f32::from_bits(1),
        f32::from_bits(0x007fffff),
        f32::from_bits(0x80000001),
        f32::INFINITY,
        f32::NEG_INFINITY,
        1.0e-40,
        6.5536e4,
    ];
    for s in cases {
        let got = f32_bits_to_f64_bits(s.to_bits());
        let want = (s as f64).to_bits();
        assert_eq!(got, want, "widening {s} ({:#x})", s.to_bits());
    }
}

#[test]
fn widening_keeps_not_a_number() {
    let got = f32_bits_to_f64_bits(f32::NAN.to_bits());
    assert!(f64::from_bits(got).is_nan());
}

#[test]
fn narrowing_matches_native_cast() {
    let cases: Vec<f64> = vec![
        0.0,
        -0.0,
        1.0,
        -1.0,
        2.0,
        0.1,
        3.9,
        16777217.0,
        1.0e40,
        -1.0e40,
        1.0e-40,
        -1.0e-40,
        1.0e-45,
        5.0e-324,
        f64::MAX,
        f64::MIN_POSITIVE,
        f64::INFINITY,
        f64::NEG_INFINITY,
        3.4028235677973366e38,
        3.4028235677973367e38,
        1.9999999999999998,
        7.006492321624085e-46,
        7.006492321624087e-46,
    ];
    for d in cases {
        let got = f64_bits_to_f32_bits(d.to_bits());
        let want = (d as f32).to_bits();
        assert_eq!(got, want, "narrowing {d} ({:#x})", d.to_bits());
    }
}

#[test]
fn narrowing_gives_canonical_not_a_number() {
    let got = f64_bits_to_f32_bits(f64::NAN.to_bits());
    assert!(f32::from_bits(got).is_nan());
}

#[test]
fn integer_to_double_matches_native_cast() {
    let cases: Vec<i64> = vec![
        0,
        1,
        -1,
        2,
        -2,
        1023,
        9007199254740992,
        9007199254740993,
        9007199254740995,
        -9007199254740993,
        i64::MAX,
        i64::MIN,
        i64::MAX - 511,
        4611686018427387903,
    ];
    for v in cases {
        let got = i64_to_f64_bits(v);
        let want = (v as f64).to_bits();
        assert_eq!(got, want, "double of {v}");
    }
}

#[test]
fn integer_to_single_matches_native_cast() {
    let cases: Vec<i64> = vec![
        0,
        1,
        -1,
        16777215,
        16777216,
        16777217,
        16777219,
        -16777217,
        33554430,
        i64::MAX,
        i64::MIN,
        123456789,
    ];
    for v in cases {
        let got = i64_to_f32_bits(v);
        let want = (v as f32).to_bits();
        assert_eq!(got, want, "single of {v}");
    }
}

#[test]
fn truncation_matches_native_cast_in_range() {
    let cases: Vec<f64> = vec![
        0.0, -0.0, 0.5, -0.5, 3.9, -3.9, 1.0, -1.0, 2.5e9, -2.5e9, 1.0e15, 4.294967295e9,
        9.007199254740992e15, -9.007199254740992e15, 0.9999999999999999,
    ];
    for d in cases {
        let got = f64_trunc_bits(d.to_bits());
        let want = (d as i64) as u64;
        assert_eq!(got, want, "truncating {d}");
    }
}

#[test]
fn truncation_of_non_finite_is_zero() {
    assert_eq!(f64_trunc_bits(f64::NAN.to_bits()), 0);
    assert_eq!(f64_trunc_bits(f64::INFINITY.to_bits()), 0);
    assert_eq!(f64_trunc_bits(f64::NEG_INFINITY.to_bits()), 0);
}

#[test]
fn truncation_wraps_beyond_sixty_four_bits() {
    // 2^64 truncates to a pattern of zero; 2^63 keeps its own pattern.
    assert_eq!(f64_trunc_bits((1.8446744073709552e19f64).to_bits()), 0);
    assert_eq!(f64_trunc_bits((9.223372036854776e18f64).to_bits()), 0x8000000000000000);
}
