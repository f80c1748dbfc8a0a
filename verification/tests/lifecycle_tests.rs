use ecolife::age::{update_age, Age, MaxAge};
use ecolife::saturation::{update_saturation, Saturation, SaturationChange};

#[test]
fn saturation_drains_and_clamps_at_zero() {
    // 0.4 full, draining at 0.5 per second, over one second: floors at 0
    let mut s = Saturation { max: 10_000, current: 400 };
    update_saturation(&mut s, &SaturationChange(-500), 1_000);
    assert_eq!(s.current, 0);
    assert_eq!(s.max, 10_000);
}

#[test]
fn saturation_fills_and_clamps_at_max() {
    let mut s = Saturation { max: 10_000, current: 9_800 };
    update_saturation(&mut s, &SaturationChange(500), 1_000);
    assert_eq!(s.current, 10_000);
}

#[test]
fn saturation_drifts_linearly_inside_the_band() {
    let mut s = Saturation { max: 10_000, current: 5_000 };
    update_saturation(&mut s, &SaturationChange(500), 250);
    assert_eq!(s.current, 5_125);
}

#[test]
fn saturation_stays_in_bounds_for_any_drift() {
    let mut s = Saturation { max: 7, current: 3 };
    update_saturation(&mut s, &SaturationChange(-1_000_000_000), 600_000);
    assert!(0 <= s.current && s.current <= s.max);
    let mut s2 = Saturation { max: 7, current: 3 };
    update_saturation(&mut s2, &SaturationChange(1_000_000_000), 600_000);
    assert!(0 <= s2.current && s2.current <= s2.max);
}

#[test]
fn age_accrues_linearly_without_a_cap() {
    let mut a = Age { current: 1_000, change: 1_000 };
    update_age(&mut a, None, 2_500);
    assert_eq!(a.current, 3_500);
    assert_eq!(a.change, 1_000);
}

#[test]
fn age_never_overshoots_its_cap() {
    let mut a = Age { current: 9_900, change: 1_000 };
    update_age(&mut a, Some(&MaxAge(10_000)), 1_000);
    assert_eq!(a.current, 10_000);
}
