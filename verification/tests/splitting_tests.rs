use ecolife::food::{count_food_neighbours, food_splitting, spawn_food, Organism};
use ecolife::rng::GameRng;
use ecolife::vec2::Vec2;
use ecolife::wrapping::WrappingRect;

fn parent(split_chance: u32, max_saturation: i64, current: i64, rng: &mut GameRng) -> Organism {
    spawn_food(
        Vec2 { x: 10_000, y: -20_000 },
        max_saturation,
        current,
        500,
        8,
        0,
        split_chance,
        64_000,
        rng,
    )
}

#[test]
fn certain_split_conserves_saturation_exactly() {
    let mut rng = GameRng::new(420);
    let mut organisms = vec![parent(1_000_000, 10_000, 8_001, &mut rng)];
    food_splitting(&mut organisms, &mut rng);
    assert_eq!(organisms.len(), 2);
    let p = &organisms[0];
    let c = &organisms[1];
    // parent and child together hold exactly the pre-split resource
    assert_eq!(p.saturation.current + c.saturation.current, 8_001);
    assert_eq!(c.saturation.current, 4_000);
    assert_eq!(p.saturation.current, 4_001);
    // the child's capacity lies in the drawn envelope around the parent's
    assert!(9_000 <= c.saturation.max && c.saturation.max < 11_000);
    // the child inherits position, reproduction parameters and radius
    assert_eq!(c.position, p.position);
    assert_eq!(c.food, p.food);
    assert_eq!(c.neighbourhood.radius, 64_000);
    assert_eq!(c.neighbourhood.count, 0);
    assert!(!c.died && !c.starved && !c.old_age && !c.can_die);
    // the child drifts by the parent's pre-split level
    assert_eq!(c.saturation_change.0, 8_001);
    // and starts fully damped, with a drawn velocity of at least five units
    assert_eq!(c.velocity_damping, Some(ecolife::movement::VelocityDamping(1_000)));
    let v = c.velocity.0;
    assert!(v.x != 0 || v.y != 0);
    assert!(-80_000 <= v.x && v.x <= 80_000 && -80_000 <= v.y && v.y <= 80_000);
}

#[test]
fn zero_chance_never_splits() {
    let mut rng = GameRng::new(420);
    let mut organisms = vec![parent(0, 10_000, 8_000, &mut rng)];
    let before = organisms[0];
    food_splitting(&mut organisms, &mut rng);
    assert_eq!(organisms.len(), 1);
    assert_eq!(organisms[0], before);
}

#[test]
fn underfed_organism_does_not_split() {
    let mut rng = GameRng::new(420);
    let mut o = parent(1_000_000, 10_000, 8_000, &mut rng);
    o.food.min_split_saturation = 9_000;
    let mut organisms = vec![o];
    food_splitting(&mut organisms, &mut rng);
    assert_eq!(organisms.len(), 1);
    assert_eq!(organisms[0], o);
}

#[test]
fn crowded_organism_does_not_split() {
    let mut rng = GameRng::new(420);
    let mut crowd: Vec<Organism> = Vec::new();
    // ten coincident organisms, each allowing at most 8 neighbours
    for _ in 0..10 {
        let mut o = parent(1_000_000, 10_000, 8_000, &mut rng);
        o.food.max_neighbours_for_split = 8;
        crowd.push(o);
    }
    let rect = WrappingRect::new(-100_000, -100_000, 200_000, 200_000).unwrap();
    count_food_neighbours(&mut crowd, Some(&rect));
    assert_eq!(crowd[0].neighbourhood.count, 9);
    let before = crowd.clone();
    food_splitting(&mut crowd, &mut rng);
    assert_eq!(crowd.len(), 10);
    assert_eq!(crowd, before);
}

#[test]
fn nonviable_child_capacity_aborts_the_split() {
    let mut rng = GameRng::new(420);
    // a parent capacity of 0.5 perturbs to under 1.0, so the split aborts
    let mut organisms = vec![parent(1_000_000, 500, 400, &mut rng)];
    let before = organisms[0];
    food_splitting(&mut organisms, &mut rng);
    assert_eq!(organisms.len(), 1);
    assert_eq!(organisms[0], before);
}

#[test]
fn neighbour_count_is_recomputed_within_the_radius() {
    let mut rng = GameRng::new(1);
    let mut organisms = vec![
        parent(0, 10_000, 5_000, &mut rng),
        parent(0, 10_000, 5_000, &mut rng),
        parent(0, 10_000, 5_000, &mut rng),
    ];
    organisms[0].position = Vec2 { x: 0, y: 0 };
    organisms[1].position = Vec2 { x: 50_000, y: 0 };
    organisms[2].position = Vec2 { x: 90_000, y: 0 };
    let rect = WrappingRect::new(-100_000, -100_000, 200_000, 200_000).unwrap();
    count_food_neighbours(&mut organisms, Some(&rect));
    // radius 64: the middle one sees both ends (50 and 40 away); the ends see
    // only the middle (the ends are 90 apart directly, 110 across the seam)
    assert_eq!(organisms[0].neighbourhood.count, 1);
    assert_eq!(organisms[1].neighbourhood.count, 2);
    assert_eq!(organisms[2].neighbourhood.count, 1);
}

#[test]
fn spawned_organism_velocity_is_in_the_drawn_band() {
    let mut rng = GameRng::new(99);
    for _ in 0..50 {
        let o = parent(0, 10_000, 5_000, &mut rng);
        let v = o.velocity.0;
        let len_sq = (v.x as i128) * (v.x as i128) + (v.y as i128) * (v.y as i128);
        // magnitude in [5, 80) up to milliradian direction rounding
        assert!(len_sq <= 80_000i128 * 80_000i128 * 2);
        assert!(len_sq >= 4_000i128 * 4_000i128);
        assert_eq!(o.velocity_damping, Some(ecolife::movement::VelocityDamping(1_000)));
    }
}
