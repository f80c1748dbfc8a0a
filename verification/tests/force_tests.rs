use ecolife::food::{spawn_food, Organism};
use ecolife::interaction_forces::{
    apply_interaction_forces, interaction_force, ForceParams, InteractionRules,
};
use ecolife::rng::GameRng;
use ecolife::vec2::Vec2;
use ecolife::world::setup_interaction_rules;
use ecolife::wrapping::WrappingRect;

fn default_rule() -> ForceParams {
    ForceParams {
        attract_strength: 8_000,
        repulse_strength: 64_000,
        min_distance: 16_000,
        max_distance: 128_000,
    }
}

fn org_at(x: i64, y: i64, rng: &mut GameRng) -> Organism {
    spawn_food(Vec2 { x, y }, 10_000, 5_000, 500, 8, 7_500, 1_000, 64_000, rng)
}

#[test]
fn repulsion_inside_the_minimum_band_pushes_away() {
    // two organisms 8 apart with min 16 and repulse 64: magnitude 64 * 8/16 =
    // 32, directed from the other back onto the receiver
    let f = interaction_force(Vec2 { x: 8_000, y: 0 }, &default_rule());
    assert_eq!(f, Vec2 { x: -32_000, y: 0 });
}

#[test]
fn attraction_inside_the_outer_band_pulls_with_constant_magnitude() {
    let f = interaction_force(Vec2 { x: 50_000, y: 0 }, &default_rule());
    assert_eq!(f, Vec2 { x: 8_000, y: 0 });
}

#[test]
fn no_force_beyond_the_outer_band_or_on_coincident_organisms() {
    assert_eq!(
        interaction_force(Vec2 { x: 130_000, y: 0 }, &default_rule()),
        Vec2 { x: 0, y: 0 }
    );
    assert_eq!(interaction_force(Vec2 { x: 0, y: 0 }, &default_rule()), Vec2 { x: 0, y: 0 });
}

#[test]
fn pair_pass_applies_equal_and_opposite_repulsion() {
    let mut rng = GameRng::new(7);
    let rect = WrappingRect::new(-100_000, -100_000, 200_000, 200_000).unwrap();
    let mut organisms = vec![org_at(0, 0, &mut rng), org_at(8_000, 0, &mut rng)];
    let rules = setup_interaction_rules();
    apply_interaction_forces(&mut organisms, &rules, Some(&rect));
    assert_eq!(organisms[0].acceleration.0, Vec2 { x: -32_000, y: 0 });
    assert_eq!(organisms[1].acceleration.0, Vec2 { x: 32_000, y: 0 });
}

#[test]
fn absent_rule_means_no_interaction() {
    let mut rng = GameRng::new(7);
    let rect = WrappingRect::new(-100_000, -100_000, 200_000, 200_000).unwrap();
    let mut organisms = vec![org_at(0, 0, &mut rng), org_at(8_000, 0, &mut rng)];
    let rules = InteractionRules::new();
    apply_interaction_forces(&mut organisms, &rules, Some(&rect));
    assert_eq!(organisms[0].acceleration.0, Vec2 { x: 0, y: 0 });
    assert_eq!(organisms[1].acceleration.0, Vec2 { x: 0, y: 0 });
}

#[test]
fn forces_reach_across_the_seam() {
    let mut rng = GameRng::new(7);
    let rect = WrappingRect::new(-100_000, -100_000, 200_000, 200_000).unwrap();
    // 198 apart directly, but 2 apart across the seam: repulsion applies
    let mut organisms = vec![org_at(99_000, 0, &mut rng), org_at(-99_000, 0, &mut rng)];
    let rules = setup_interaction_rules();
    apply_interaction_forces(&mut organisms, &rules, Some(&rect));
    // delta from the first to the second is +2 across the seam, so the first
    // is pushed back toward -x with magnitude 64 * 2/16 = 8
    assert_eq!(organisms[0].acceleration.0, Vec2 { x: -8_000, y: 0 });
    assert_eq!(organisms[1].acceleration.0, Vec2 { x: 8_000, y: 0 });
}

#[test]
fn rule_table_lookup_finds_only_inserted_pairs() {
    let mut rules = InteractionRules::new();
    rules.insert(1, 2, default_rule());
    assert!(rules.get(1, 2).is_some());
    assert!(rules.get(2, 1).is_none());
    assert!(rules.get(0, 0).is_none());
}
