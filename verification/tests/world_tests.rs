use ecolife::food::spawn_food;
use ecolife::rng::GameRng;
use ecolife::vec2::Vec2;
use ecolife::world::{setup_interaction_rules, spawn_initial_food, World};
use ecolife::wrapping::{create_wrapping_rect, WrappingRect};

fn small_world(rng: &mut GameRng) -> World {
    let mut organisms = Vec::new();
    organisms.push(spawn_food(Vec2 { x: 0, y: 0 }, 10_000, 5_000, 500, 8, 7_500, 0, 64_000, rng));
    organisms.push(spawn_food(
        Vec2 { x: 8_000, y: 0 },
        10_000,
        5_000,
        500,
        8,
        7_500,
        0,
        64_000,
        rng,
    ));
    World {
        organisms,
        rect: Some(WrappingRect::new(-100_000, -100_000, 200_000, 200_000).unwrap()),
        rules: setup_interaction_rules(),
    }
}

#[test]
fn startup_rules_hold_the_default_group_rule() {
    let rules = setup_interaction_rules();
    let rule = rules.get(0, 0).unwrap();
    assert_eq!(rule.attract_strength, 8_000);
    assert_eq!(rule.repulse_strength, 64_000);
    assert_eq!(rule.min_distance, 16_000);
    assert_eq!(rule.max_distance, 128_000);
    // and nothing else interacts
    assert!(rules.get(0, 1).is_none());
    assert!(rules.get(1, 0).is_none());
    assert!(rules.get(255, 255).is_none());
}

#[test]
fn seeding_spawns_the_initial_population_inside_the_viewport() {
    let mut rng = GameRng::new(420);
    let mut organisms = Vec::new();
    spawn_initial_food(&mut organisms, 1_280_000, 720_000, &mut rng);
    assert_eq!(organisms.len(), 32);
    for o in &organisms {
        assert!(-640_000 <= o.position.x && o.position.x < 640_000);
        assert!(-360_000 <= o.position.y && o.position.y < 360_000);
        assert!(5_000 <= o.saturation.max && o.saturation.max < 10_000);
        assert_eq!(o.saturation.current, o.saturation.max / 2);
        assert_eq!(o.saturation_change.0, 500);
        assert_eq!(o.food.max_neighbours_for_split, 8);
        assert_eq!(o.food.min_split_saturation, o.saturation.max * 750 / 1_000);
        assert_eq!(o.food.split_chance, 1_000);
        assert_eq!(o.neighbourhood.radius, 64_000);
    }
}

#[test]
fn well_formedness_check_accepts_a_fresh_world_and_rejects_a_broken_one() {
    let mut rng = GameRng::new(420);
    let world = small_world(&mut rng);
    assert!(world.wf_check());

    let mut broken = small_world(&mut rng);
    broken.organisms[0].saturation.current = -1;
    assert!(!broken.wf_check());

    let mut bad_rect = small_world(&mut rng);
    bad_rect.rect = Some(WrappingRect { x: 0, y: 0, width: 0, height: 10 });
    assert!(!bad_rect.wf_check());
}

#[test]
fn one_tick_moves_drifts_and_keeps_bounds() {
    let mut rng = GameRng::new(420);
    let mut world = small_world(&mut rng);
    world.organisms[0].velocity.0 = Vec2 { x: 10_000, y: 0 };
    world.organisms[0].position = Vec2 { x: 99_000, y: 0 };
    world.organisms[0].velocity_damping = None;
    world.tick(&mut rng, 1_000);
    // the organism moved across the seam and wrapped
    assert_eq!(world.organisms[0].position, Vec2 { x: -91_000, y: 0 });
    // resource drifted up by the configured half unit per second
    assert_eq!(world.organisms[0].saturation.current, 5_500);
    for o in &world.organisms {
        assert!(0 <= o.saturation.current && o.saturation.current <= o.saturation.max);
    }
}

#[test]
fn corpse_is_removed_exactly_one_tick_after_flagging() {
    let mut rng = GameRng::new(420);
    let mut world = small_world(&mut rng);
    // the first organism drains to zero during the first tick
    world.organisms[0].saturation.current = 400;
    world.organisms[0].saturation_change.0 = -500;
    world.organisms[0].can_die = true;
    world.tick(&mut rng, 1_000);
    // flagged at the end of the tick, still present and observable
    assert_eq!(world.organisms.len(), 2);
    assert!(world.organisms[0].starved);
    assert!(world.organisms[0].died);
    world.tick(&mut rng, 1_000);
    // gone at the start of the next tick
    assert_eq!(world.organisms.len(), 1);
    assert!(!world.organisms[0].died);
}

#[test]
fn ineligible_corpse_stays_until_made_eligible() {
    let mut rng = GameRng::new(420);
    let mut world = small_world(&mut rng);
    world.organisms[0].died = true;
    world.tick(&mut rng, 1_000);
    assert_eq!(world.organisms.len(), 2);
    assert!(world.organisms[0].died);
}

#[test]
fn euclidean_mode_skips_wrapping() {
    let mut rng = GameRng::new(420);
    let mut world = small_world(&mut rng);
    world.rect = None;
    world.organisms[0].velocity.0 = Vec2 { x: 10_000, y: 0 };
    world.organisms[0].position = Vec2 { x: 99_000, y: 0 };
    world.organisms[0].velocity_damping = None;
    world.tick(&mut rng, 1_000);
    assert_eq!(world.organisms[0].position, Vec2 { x: 109_000, y: 0 });
}

#[test]
fn viewport_rect_feeds_the_world() {
    let rect = create_wrapping_rect(200_000, 200_000).unwrap();
    assert_eq!(rect.x, -100_000);
    assert_eq!(rect.y, -100_000);
}

#[test]
fn long_run_keeps_the_world_well_formed() {
    let mut rng = GameRng::new(420);
    let rect = create_wrapping_rect(1_280_000, 720_000).unwrap();
    let mut organisms = Vec::new();
    spawn_initial_food(&mut organisms, rect.width, rect.height, &mut rng);
    let mut world = World { organisms, rect: Some(rect), rules: setup_interaction_rules() };
    for _ in 0..300 {
        assert!(world.wf_check());
        world.tick(&mut rng, 16);
        for o in &world.organisms {
            assert!(0 <= o.saturation.current && o.saturation.current <= o.saturation.max);
            assert!(rect.x <= o.position.x && o.position.x <= rect.x + rect.width);
            assert!(rect.y <= o.position.y && o.position.y <= rect.y + rect.height);
        }
    }
    assert!(world.organisms.len() >= 32);
}
