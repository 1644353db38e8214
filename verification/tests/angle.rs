use fit_track::angle::round_div_wide;
use fit_track::angle::HALF_TURN_SEMICIRCLES;
use fit_track::angle::HALF_TURN_UNITS;
use fit_track::round_div;
use fit_track::semicircles_to_degrees_e5;

/// Degrees as floating point would give them: scale by `180 / 2^31`, then
/// round to five decimal places.
fn float_degrees(semicircles: i32) -> f64 {
    let scale = 180.0 / (1u64 << 31) as f64;
    let factor = 10f64.powi(5);
    (semicircles as f64 * scale * factor).round() / factor
}

fn as_degrees(units: i64) -> f64 {
    units as f64 / 100_000.0
}

#[test]
fn half_turn_is_exactly_180_degrees() {
    assert_eq!(semicircles_to_degrees_e5(1 << 31), 18_000_000);
    assert_eq!(as_degrees(semicircles_to_degrees_e5(1 << 31)), 180.0);
}

#[test]
fn no_angle_is_exactly_zero() {
    assert_eq!(semicircles_to_degrees_e5(0), 0);
    assert_eq!(as_degrees(semicircles_to_degrees_e5(0)), 0.0);
}

#[test]
fn half_turn_back_is_exactly_minus_180_degrees() {
    assert_eq!(semicircles_to_degrees_e5(-(1 << 31)), -18_000_000);
    assert_eq!(as_degrees(semicircles_to_degrees_e5(-(1 << 31))), -180.0);
}

#[test]
fn constants_are_the_half_turn() {
    assert_eq!(HALF_TURN_SEMICIRCLES, 2_147_483_648);
    assert_eq!(HALF_TURN_UNITS, 180 * 100_000);
    assert_eq!(semicircles_to_degrees_e5(HALF_TURN_SEMICIRCLES), HALF_TURN_UNITS);
}

#[test]
fn sample_position_converts_to_pinned_values() {
    assert_eq!(semicircles_to_degrees_e5(515_396_075), 4_320_000);
    assert_eq!(semicircles_to_degrees_e5(-1_310_862), -10_988);
    assert_eq!(as_degrees(semicircles_to_degrees_e5(515_396_075)), 43.2);
    assert_eq!(as_degrees(semicircles_to_degrees_e5(-1_310_862)), -0.10988);
}

#[test]
fn small_angles_round_to_the_nearest_unit() {
    assert_eq!(semicircles_to_degrees_e5(1), 0);
    assert_eq!(semicircles_to_degrees_e5(-1), 0);
    assert_eq!(semicircles_to_degrees_e5(59), 0);
    assert_eq!(semicircles_to_degrees_e5(60), 1);
    assert_eq!(semicircles_to_degrees_e5(-59), 0);
    assert_eq!(semicircles_to_degrees_e5(-60), -1);
    assert_eq!(semicircles_to_degrees_e5(119), 1);
    assert_eq!(semicircles_to_degrees_e5(120), 1);
}

#[test]
fn a_tie_goes_away_from_zero() {
    // 2^23 semicircles are 0.703125 degrees: halfway between two units.
    assert_eq!(semicircles_to_degrees_e5(1 << 23), 70_313);
    assert_eq!(semicircles_to_degrees_e5(-(1 << 23)), -70_313);
    assert_eq!(round_div(5, 2), 3);
    assert_eq!(round_div(-5, 2), -3);
    assert_eq!(round_div(1, 2), 1);
    assert_eq!(round_div(-1, 2), -1);
    assert_eq!(round_div(3, 2), 2);
    assert_eq!(round_div(-3, 2), -2);
}

#[test]
fn round_div_takes_the_nearest_integer() {
    assert_eq!(round_div(0, 7), 0);
    assert_eq!(round_div(7, 3), 2);
    assert_eq!(round_div(-7, 3), -2);
    assert_eq!(round_div(4, 3), 1);
    assert_eq!(round_div(-4, 3), -1);
    assert_eq!(round_div(5, 3), 2);
    assert_eq!(round_div(-5, 3), -2);
    assert_eq!(round_div(10, 1), 10);
    assert_eq!(round_div(-10, 1), -10);
    assert_eq!(round_div(1, 3), 0);
    assert_eq!(round_div(-1, 3), 0);
}

#[test]
fn round_div_holds_at_the_ends_of_the_range() {
    assert_eq!(round_div(i64::MAX, 1), i64::MAX);
    assert_eq!(round_div(i64::MIN, 1), i64::MIN);
    assert_eq!(round_div(i64::MAX, i64::MAX), 1);
    assert_eq!(round_div(i64::MIN, i64::MAX), -1);
    assert_eq!(round_div(i64::MAX, 2), 4_611_686_018_427_387_904);
    assert_eq!(round_div(i64::MIN, 2), -4_611_686_018_427_387_904);
    assert_eq!(round_div(1, i64::MAX), 0);
}

#[test]
fn round_div_wide_agrees_with_round_div() {
    for num in -50i64..=50 {
        for den in 1i64..=12 {
            assert_eq!(round_div_wide(num as i128, den as i128), round_div(num, den) as i128);
        }
    }
    let limit: i128 = 1 << 96;
    assert_eq!(round_div_wide(limit, limit), 1);
    assert_eq!(round_div_wide(-limit, limit), -1);
    assert_eq!(round_div_wide(limit, 1), limit);
    assert_eq!(round_div_wide(-limit, 1), -limit);
    assert_eq!(round_div_wide(limit - 1, 2), limit / 2);
}

#[test]
fn rounding_a_whole_number_of_units_changes_nothing() {
    for den in [1i64, 2, 3, 10, 100_000, 2_147_483_648] {
        for n in [-18_000_000i64, -4_320_000, -10_988, -1, 0, 1, 7, 10_988, 18_000_000] {
            assert_eq!(round_div(n * den, den), n);
        }
    }
}

#[test]
fn rounding_twice_is_rounding_once() {
    for num in [-1_000_003i64, -70_312, -5, 0, 5, 70_312, 1_000_003, 987_654_321] {
        for den in [1i64, 2, 3, 7, 100_000] {
            let once = round_div(num, den);
            assert_eq!(round_div(once * den, den), once);
        }
    }
}

#[test]
fn rounding_rounded_degrees_changes_nothing() {
    let factor = 10f64.powi(5);
    for s in [515_396_075i32, -1_310_862, 1 << 23, i32::MAX, i32::MIN, 60, -60, 0] {
        let degrees = as_degrees(semicircles_to_degrees_e5(s as i64));
        assert_eq!((degrees * factor).round() / factor, degrees);
    }
}

#[test]
fn every_32_bit_angle_is_within_180_degrees() {
    assert_eq!(semicircles_to_degrees_e5(i32::MAX as i64), 18_000_000);
    assert_eq!(semicircles_to_degrees_e5(i32::MIN as i64), -18_000_000);
    assert_eq!(semicircles_to_degrees_e5((1 << 31) + 59), 18_000_000);
    assert_eq!(semicircles_to_degrees_e5((1 << 31) + 60), 18_000_001);
    assert_eq!(semicircles_to_degrees_e5(-(1 << 31) - 59), -18_000_000);
    assert_eq!(semicircles_to_degrees_e5(-(1 << 31) - 60), -18_000_001);
}

#[test]
fn a_quarter_turn_is_90_degrees_give_or_take_59_semicircles() {
    assert_eq!(semicircles_to_degrees_e5(1 << 30), 9_000_000);
    assert_eq!(semicircles_to_degrees_e5((1 << 30) + 59), 9_000_000);
    assert_eq!(semicircles_to_degrees_e5((1 << 30) + 60), 9_000_001);
    assert_eq!(semicircles_to_degrees_e5(-(1 << 30)), -9_000_000);
    assert_eq!(semicircles_to_degrees_e5(-(1 << 30) - 59), -9_000_000);
    assert_eq!(semicircles_to_degrees_e5(-(1 << 30) - 60), -9_000_001);
}

#[test]
fn conversion_takes_every_64_bit_angle() {
    assert_eq!(semicircles_to_degrees_e5(i64::MAX), 77_309_411_328_000_000);
    assert_eq!(semicircles_to_degrees_e5(i64::MIN), -77_309_411_328_000_000);
}

#[test]
fn integer_degrees_agree_with_floating_point() {
    let mut s: i64 = i32::MIN as i64;
    while s <= i32::MAX as i64 {
        let units = semicircles_to_degrees_e5(s);
        assert_eq!(as_degrees(units), float_degrees(s as i32), "at {}", s);
        s += 49_999;
    }
    for s in [i32::MAX, i32::MIN, 1 << 23, -(1 << 23), 3 << 23, 515_396_075, -1_310_862] {
        assert_eq!(as_degrees(semicircles_to_degrees_e5(s as i64)), float_degrees(s));
    }
}

#[test]
fn conversion_keeps_order() {
    let mut last = semicircles_to_degrees_e5(-1_000);
    for s in -999i64..=1_000 {
        let next = semicircles_to_degrees_e5(s);
        assert!(last <= next);
        last = next;
    }
}

#[test]
fn conversion_is_odd() {
    for s in [0i64, 1, 59, 60, 1 << 23, 515_396_075, 1 << 31, i64::MAX] {
        assert_eq!(semicircles_to_degrees_e5(-s), -semicircles_to_degrees_e5(s));
    }
}
