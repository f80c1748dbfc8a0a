use ecolife::math::{isqrt, mul_div, sat_add};
use ecolife::trig::{cos_milli, sin_milli};
use ecolife::vec2::Vec2;

#[test]
fn integer_square_root_floors() {
    assert_eq!(isqrt(0), 0);
    assert_eq!(isqrt(1), 1);
    assert_eq!(isqrt(24), 4);
    assert_eq!(isqrt(25), 5);
    assert_eq!(isqrt(26), 5);
    assert_eq!(isqrt(u64::MAX as u128 * u64::MAX as u128), u64::MAX);
}

#[test]
fn saturating_addition_clips_at_the_rim() {
    assert_eq!(sat_add(1, 2), 3);
    assert_eq!(sat_add(i64::MAX, 1), i64::MAX);
    assert_eq!(sat_add(i64::MIN, -1), i64::MIN);
}

#[test]
fn scaled_multiply_truncates_toward_zero() {
    assert_eq!(mul_div(7, 1, 2), 3);
    assert_eq!(mul_div(-7, 1, 2), -3);
    assert_eq!(mul_div(1_000_000_000_000, 1_000_000_000_000, 1), i64::MAX);
    assert_eq!(mul_div(-1_000_000_000_000, 1_000_000_000_000, 1), i64::MIN);
}

#[test]
fn vector_length_is_the_floored_euclidean_norm() {
    assert_eq!(Vec2 { x: 3, y: 4 }.length(), 5);
    assert_eq!(Vec2 { x: -3, y: 4 }.length(), 5);
    assert_eq!(Vec2 { x: 1, y: 1 }.length(), 1);
    assert_eq!(Vec2 { x: 0, y: 0 }.length(), 0);
}

#[test]
fn sine_hits_the_cardinal_points() {
    assert_eq!(sin_milli(0), 0);
    assert_eq!(sin_milli(1_571), 1_000);
    assert_eq!(sin_milli(3_142), 0);
    assert_eq!(sin_milli(4_713), -1_000);
    assert_eq!(cos_milli(0), 1_000);
    assert_eq!(cos_milli(3_142), -1_000);
}

#[test]
fn sine_and_cosine_stay_on_the_unit_disc() {
    let mut a: u32 = 0;
    while a < 6_284 {
        let s = sin_milli(a);
        let c = cos_milli(a);
        assert!(-1_000 <= s && s <= 1_000);
        assert!(-1_000 <= c && c <= 1_000);
        // close to the unit circle: the rational half-wave dips slightly
        assert!(s * s + c * c <= 1_000_000 + 40_000);
        assert!(s * s + c * c >= 1_000_000 - 80_000);
        a += 1;
    }
}
