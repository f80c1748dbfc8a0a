use ecolife::vec2::Vec2;
use ecolife::wrapping::{
    create_wrapping_rect, wrap_position, wrapping_delta, wrapping_length, wrapping_length_squared,
    WrappingRect,
};

fn arena() -> WrappingRect {
    WrappingRect::new(-100_000, -100_000, 200_000, 200_000).unwrap()
}

#[test]
fn wrap_carries_a_right_edge_excursion_to_the_left_edge() {
    // an organism at 99 moving at 10 units per second for one second lands at
    // raw 109, which wraps to -91
    let rect = arena();
    let wrapped = wrap_position(Vec2 { x: 109_000, y: 0 }, &rect);
    assert_eq!(wrapped, Vec2 { x: -91_000, y: 0 });
}

#[test]
fn wrap_leaves_interior_positions_alone() {
    let rect = arena();
    let p = Vec2 { x: 12_345, y: -67_890 };
    assert_eq!(wrap_position(p, &rect), p);
}

#[test]
fn wrap_is_idempotent_on_a_single_excursion() {
    let rect = arena();
    let once = wrap_position(Vec2 { x: 150_000, y: -130_000 }, &rect);
    let twice = wrap_position(once, &rect);
    assert_eq!(once, twice);
    assert_eq!(once, Vec2 { x: -50_000, y: 70_000 });
}

#[test]
fn delta_folds_across_the_seam() {
    let rect = arena();
    let a = Vec2 { x: 99_000, y: 0 };
    let b = Vec2 { x: -99_000, y: 0 };
    // the direct path is 198 long; across the seam it is only 2
    let d = wrapping_delta(a, b, &rect);
    assert_eq!(d, Vec2 { x: 2_000, y: 0 });
    assert_eq!(wrapping_length(a, b, &rect), 2_000);
}

#[test]
fn delta_is_antisymmetric() {
    let rect = arena();
    let a = Vec2 { x: 40_000, y: -90_000 };
    let b = Vec2 { x: -80_000, y: 30_000 };
    let ab = wrapping_delta(a, b, &rect);
    let ba = wrapping_delta(b, a, &rect);
    assert_eq!(ab.x, -ba.x);
    assert_eq!(ab.y, -ba.y);
}

#[test]
fn length_of_a_three_four_triangle_is_five() {
    let rect = arena();
    let a = Vec2 { x: 0, y: 0 };
    let b = Vec2 { x: 3_000, y: 4_000 };
    assert_eq!(wrapping_length_squared(a, b, &rect), 25_000_000);
    assert_eq!(wrapping_length(a, b, &rect), 5_000);
}

#[test]
fn zero_area_rect_is_rejected_at_configuration() {
    assert!(WrappingRect::new(0, 0, 0, 200_000).is_none());
    assert!(WrappingRect::new(0, 0, 200_000, 0).is_none());
    assert!(WrappingRect::new(0, 0, -5, 10).is_none());
}

#[test]
fn viewport_rect_is_centred_on_the_origin() {
    let rect = create_wrapping_rect(1_280_000, 720_000).unwrap();
    assert_eq!(rect.x, -640_000);
    assert_eq!(rect.y, -360_000);
    assert_eq!(rect.width, 1_280_000);
    assert_eq!(rect.height, 720_000);
    assert!(create_wrapping_rect(0, 720_000).is_none());
}
