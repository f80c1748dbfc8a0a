use ecolife::movement::{
    clamp_velocity, damp_velocity, update_position, update_rotation, update_velocity, Acceleration,
    MaxVelocity, Velocity, VelocityDamping,
};
use ecolife::vec2::Vec2;

#[test]
fn velocity_integrates_acceleration_and_consumes_it() {
    let mut v = Velocity(Vec2 { x: 2_000, y: -1_000 });
    let mut a = Acceleration(Vec2 { x: 1_000, y: 500 });
    update_velocity(&mut v, &mut a, 1_000);
    assert_eq!(v.0, Vec2 { x: 3_000, y: -500 });
    assert_eq!(a.0, Vec2 { x: 0, y: 0 });
}

#[test]
fn half_a_second_integrates_half_the_acceleration() {
    let mut v = Velocity(Vec2 { x: 0, y: 0 });
    let mut a = Acceleration(Vec2 { x: 1_000, y: 0 });
    update_velocity(&mut v, &mut a, 500);
    assert_eq!(v.0, Vec2 { x: 500, y: 0 });
}

#[test]
fn negligible_speed_snaps_to_exact_zero() {
    // squared length 9 is under the snap threshold of 10
    let mut v = Velocity(Vec2 { x: 3, y: 0 });
    let mut a = Acceleration(Vec2 { x: 0, y: 0 });
    update_velocity(&mut v, &mut a, 16);
    assert_eq!(v.0, Vec2 { x: 0, y: 0 });

    // squared length 10 is not
    let mut v2 = Velocity(Vec2 { x: 3, y: 1 });
    let mut a2 = Acceleration(Vec2 { x: 0, y: 0 });
    update_velocity(&mut v2, &mut a2, 16);
    assert_eq!(v2.0, Vec2 { x: 3, y: 1 });
}

#[test]
fn damping_halves_velocity_over_half_a_second_at_full_rate() {
    let mut v = Velocity(Vec2 { x: 10_000, y: -6_000 });
    damp_velocity(&mut v, &VelocityDamping(1_000), 500);
    assert_eq!(v.0, Vec2 { x: 5_000, y: -3_000 });
}

#[test]
fn damping_floors_at_zero_rather_than_reversing() {
    // a factor of 1 - 2.0 * 1s would be negative; it floors at zero
    let mut v = Velocity(Vec2 { x: 10_000, y: -6_000 });
    damp_velocity(&mut v, &VelocityDamping(2_000), 1_000);
    assert_eq!(v.0, Vec2 { x: 0, y: 0 });
}

#[test]
fn clamp_rescales_onto_the_cap() {
    // a 30-40-50 vector capped at 5 becomes 3-4
    let mut v = Velocity(Vec2 { x: 30_000, y: 40_000 });
    clamp_velocity(&mut v, &MaxVelocity(5_000));
    assert_eq!(v.0, Vec2 { x: 3_000, y: 4_000 });
}

#[test]
fn clamp_leaves_slow_velocities_alone() {
    let mut v = Velocity(Vec2 { x: 3_000, y: 4_000 });
    clamp_velocity(&mut v, &MaxVelocity(5_000));
    assert_eq!(v.0, Vec2 { x: 3_000, y: 4_000 });
}

#[test]
fn position_advances_by_velocity_times_dt() {
    let mut p = Vec2 { x: 99_000, y: 0 };
    update_position(&mut p, &Velocity(Vec2 { x: 10_000, y: 0 }), 1_000);
    assert_eq!(p, Vec2 { x: 109_000, y: 0 });
}

#[test]
fn facing_follows_motion_and_survives_a_stop() {
    let mut heading = Vec2 { x: 1_000, y: 0 };
    update_rotation(&mut heading, &Velocity(Vec2 { x: 0, y: -7_000 }));
    assert_eq!(heading, Vec2 { x: 0, y: -7_000 });
    update_rotation(&mut heading, &Velocity(Vec2 { x: 0, y: 0 }));
    assert_eq!(heading, Vec2 { x: 0, y: -7_000 });
}
