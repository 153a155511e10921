use iris::fpu_round::{
    round_f32_to_int_mode, round_f64_to_int_mode, RM_NEAREST_EVEN, RM_TOWARD_NEG_INF,
    RM_TOWARD_POS_INF, RM_TOWARD_ZERO,
};

fn round_f64(x: f64, rm: u8) -> f64 {
    f64::from_bits(round_f64_to_int_mode(x.to_bits(), rm))
}

fn round_f32(x: f32, rm: u8) -> f32 {
    f32::from_bits(round_f32_to_int_mode(x.to_bits(), rm))
}

#[test]
fn f64_nearest_even_ties_round_to_even() {
    assert_eq!(round_f64(0.5, RM_NEAREST_EVEN), 0.0);
    assert_eq!(round_f64(1.5, RM_NEAREST_EVEN), 2.0);
    assert_eq!(round_f64(2.5, RM_NEAREST_EVEN), 2.0);
    assert_eq!(round_f64(-0.5, RM_NEAREST_EVEN), -0.0);
    assert_eq!(round_f64(-1.5, RM_NEAREST_EVEN), -2.0);
    assert_eq!(round_f64(65535.5, RM_NEAREST_EVEN), 65536.0, "tie between odd 65535 and even 65536 rounds to even");
}

#[test]
fn f64_nearest_even_non_ties_round_to_nearest() {
    assert_eq!(round_f64(1.4, RM_NEAREST_EVEN), 1.0);
    assert_eq!(round_f64(1.6, RM_NEAREST_EVEN), 2.0);
    assert_eq!(round_f64(-1.6, RM_NEAREST_EVEN), -2.0);
}

#[test]
fn f64_toward_zero_truncates() {
    assert_eq!(round_f64(65535.5, RM_TOWARD_ZERO), 65535.0, "this is the live-boot regression case: RZ must truncate toward zero, not round");
    assert_eq!(round_f64(1.9, RM_TOWARD_ZERO), 1.0);
    assert_eq!(round_f64(-1.9, RM_TOWARD_ZERO), -1.0);
    assert_eq!(round_f64(0.5, RM_TOWARD_ZERO), 0.0);
    assert_eq!(round_f64(-0.5, RM_TOWARD_ZERO), -0.0);
}

#[test]
fn f64_toward_pos_inf() {
    assert_eq!(round_f64(1.1, RM_TOWARD_POS_INF), 2.0);
    assert_eq!(round_f64(-1.1, RM_TOWARD_POS_INF), -1.0);
    assert_eq!(round_f64(0.1, RM_TOWARD_POS_INF), 1.0);
    assert_eq!(round_f64(-0.1, RM_TOWARD_POS_INF), -0.0);
}

#[test]
fn f64_toward_neg_inf() {
    assert_eq!(round_f64(1.1, RM_TOWARD_NEG_INF), 1.0);
    assert_eq!(round_f64(-1.1, RM_TOWARD_NEG_INF), -2.0);
    assert_eq!(round_f64(0.1, RM_TOWARD_NEG_INF), 0.0);
    assert_eq!(round_f64(-0.1, RM_TOWARD_NEG_INF), -1.0);
}

#[test]
fn f64_already_integer_unchanged() {
    for rm in [RM_NEAREST_EVEN, RM_TOWARD_ZERO, RM_TOWARD_POS_INF, RM_TOWARD_NEG_INF] {
        assert_eq!(round_f64(79.0, rm), 79.0);
        assert_eq!(round_f64(-79.0, rm), -79.0);
        assert_eq!(round_f64(0.0, rm), 0.0);
    }
}

#[test]
fn f64_large_magnitude_already_integer_valued() {
    // 2^60 has no fractional bits representable at all in f64 (exponent
    // >= mantissa width) -- must pass through unchanged for every mode.
    let big = (1u64 << 60) as f64;
    for rm in [RM_NEAREST_EVEN, RM_TOWARD_ZERO, RM_TOWARD_POS_INF, RM_TOWARD_NEG_INF] {
        assert_eq!(round_f64(big, rm), big);
        assert_eq!(round_f64(-big, rm), -big);
    }
}

#[test]
fn f64_nan_and_infinity_pass_through() {
    for rm in [RM_NEAREST_EVEN, RM_TOWARD_ZERO, RM_TOWARD_POS_INF, RM_TOWARD_NEG_INF] {
        assert!(round_f64(f64::NAN, rm).is_nan());
        assert_eq!(round_f64(f64::INFINITY, rm), f64::INFINITY);
        assert_eq!(round_f64(f64::NEG_INFINITY, rm), f64::NEG_INFINITY);
    }
}

#[test]
fn f64_matches_libm_round_trunc_ceil_floor_on_ordinary_values() {
    let cases = [3.7, -3.7, 3.2, -3.2, 100.5, -100.5, 0.999999, -0.999999, 1e10 + 0.5, -1e10 - 0.5];
    for x in cases {
        assert_eq!(round_f64(x, RM_TOWARD_ZERO), x.trunc(), "trunc mismatch for {x}");
        assert_eq!(round_f64(x, RM_TOWARD_POS_INF), x.ceil(), "ceil mismatch for {x}");
        assert_eq!(round_f64(x, RM_TOWARD_NEG_INF), x.floor(), "floor mismatch for {x}");
    }
}

/// Rounding up must correctly carry a mantissa overflow into the
/// exponent field (e.g. 1.9999999999999998's mantissa is all-ones —
/// rounding away from zero must produce exactly 2.0, not a garbage bit
/// pattern from an unhandled carry). This is exactly the scenario the
/// integer-add-on-raw-bits implementation (as opposed to `truncated +
/// 2f64.powi(exp)`, an earlier, buggier attempt) is designed to get
/// right for free via ordinary binary carry propagation.
#[test]
fn f64_rounding_up_carries_mantissa_overflow_into_exponent() {
    let x = f64::from_bits(0x3FFFFFFFFFFFFFFF); // largest f64 < 2.0
    assert_eq!(round_f64(x, RM_NEAREST_EVEN), 2.0);
    assert_eq!(round_f64(x, RM_TOWARD_POS_INF), 2.0);
    assert_eq!(round_f64(-x, RM_TOWARD_NEG_INF), -2.0);
}

#[test]
fn f32_nearest_even_ties_round_to_even() {
    assert_eq!(round_f32(0.5, RM_NEAREST_EVEN), 0.0);
    assert_eq!(round_f32(1.5, RM_NEAREST_EVEN), 2.0);
    assert_eq!(round_f32(2.5, RM_NEAREST_EVEN), 2.0);
    assert_eq!(round_f32(-2.5, RM_NEAREST_EVEN), -2.0);
}

#[test]
fn f32_toward_zero_truncates() {
    assert_eq!(round_f32(3.7, RM_TOWARD_ZERO), 3.0);
    assert_eq!(round_f32(-3.7, RM_TOWARD_ZERO), -3.0);
}

#[test]
fn f32_matches_libm_on_ordinary_values() {
    let cases = [3.7f32, -3.7, 3.2, -3.2, 100.5, -100.5, 65535.5, -65535.5];
    for x in cases {
        assert_eq!(round_f32(x, RM_TOWARD_ZERO), x.trunc(), "trunc mismatch for {x}");
        assert_eq!(round_f32(x, RM_TOWARD_POS_INF), x.ceil(), "ceil mismatch for {x}");
        assert_eq!(round_f32(x, RM_TOWARD_NEG_INF), x.floor(), "floor mismatch for {x}");
    }
}

#[test]
fn f32_nan_and_infinity_pass_through() {
    for rm in [RM_NEAREST_EVEN, RM_TOWARD_ZERO, RM_TOWARD_POS_INF, RM_TOWARD_NEG_INF] {
        assert!(round_f32(f32::NAN, rm).is_nan());
        assert_eq!(round_f32(f32::INFINITY, rm), f32::INFINITY);
        assert_eq!(round_f32(f32::NEG_INFINITY, rm), f32::NEG_INFINITY);
    }
}

#[test]
fn singles_and_doubles_round_alike() {
    let tiny = f32::from_bits(1);
    let values = [
        0.0, -0.0, 0.5, -0.5, 1.5, 2.5, -2.5, 3.7, -3.7, 8388607.5, 16777216.0, 1e30, tiny, -tiny,
        f32::MIN_POSITIVE, f32::MAX, f32::INFINITY, f32::NEG_INFINITY,
    ];
    for x in values {
        for rm in [RM_NEAREST_EVEN, RM_TOWARD_ZERO, RM_TOWARD_POS_INF, RM_TOWARD_NEG_INF] {
            let single = round_f32(x, rm) as f64;
            assert_eq!(single.to_bits(), round_f64(x as f64, rm).to_bits());
        }
    }
}
