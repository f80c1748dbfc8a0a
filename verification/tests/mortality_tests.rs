use ecolife::age::{update_age, Age, MaxAge};
use ecolife::food::spawn_food;
use ecolife::mortality::{check_old_age, check_starvation, remove_died};
use ecolife::rng::GameRng;
use ecolife::saturation::{update_saturation, SaturationChange};
use ecolife::vec2::Vec2;

#[test]
fn drained_resource_flags_starved_and_died() {
    let mut rng = GameRng::new(5);
    // 0.4 full, draining at 0.5 per second: one tick floors it at zero, and
    // the next mortality pass flags the organism
    let mut o = spawn_food(Vec2 { x: 0, y: 0 }, 10_000, 400, -500, 8, 0, 0, 64_000, &mut rng);
    update_saturation(&mut o.saturation, &SaturationChange(-500), 1_000);
    assert_eq!(o.saturation.current, 0);
    check_starvation(&mut o);
    assert!(o.starved);
    assert!(o.died);
    assert!(!o.old_age);
}

#[test]
fn fed_organism_is_not_flagged() {
    let mut rng = GameRng::new(5);
    let mut o = spawn_food(Vec2 { x: 0, y: 0 }, 10_000, 400, -500, 8, 0, 0, 64_000, &mut rng);
    check_starvation(&mut o);
    assert!(!o.starved);
    assert!(!o.died);
}

#[test]
fn age_past_the_cap_flags_old_age_and_died() {
    let mut rng = GameRng::new(5);
    let mut o = spawn_food(Vec2 { x: 0, y: 0 }, 10_000, 5_000, 500, 8, 0, 0, 64_000, &mut rng);
    o.age = Some(Age { current: 10_001, change: 1_000 });
    o.max_age = Some(MaxAge(10_000));
    check_old_age(&mut o);
    assert!(o.old_age);
    assert!(o.died);
}

#[test]
fn age_clamped_at_the_cap_still_triggers_old_age() {
    // aging clamps at the cap; the paired check fires at the cap itself
    let mut rng = GameRng::new(5);
    let mut o = spawn_food(Vec2 { x: 0, y: 0 }, 10_000, 5_000, 500, 8, 0, 0, 64_000, &mut rng);
    let mut age = Age { current: 9_900, change: 1_000 };
    update_age(&mut age, Some(&MaxAge(10_000)), 1_000);
    assert_eq!(age.current, 10_000);
    o.age = Some(age);
    o.max_age = Some(MaxAge(10_000));
    check_old_age(&mut o);
    assert!(o.old_age);
    assert!(o.died);
}

#[test]
fn age_below_the_cap_does_not_trigger_old_age() {
    let mut rng = GameRng::new(5);
    let mut o = spawn_food(Vec2 { x: 0, y: 0 }, 10_000, 5_000, 500, 8, 0, 0, 64_000, &mut rng);
    o.age = Some(Age { current: 9_999, change: 1_000 });
    o.max_age = Some(MaxAge(10_000));
    check_old_age(&mut o);
    assert!(!o.old_age);
    assert!(!o.died);
}

#[test]
fn organism_without_an_age_cap_never_dies_of_old_age() {
    let mut rng = GameRng::new(5);
    let mut o = spawn_food(Vec2 { x: 0, y: 0 }, 10_000, 5_000, 500, 8, 0, 0, 64_000, &mut rng);
    o.age = Some(Age { current: 1_000_000, change: 1_000 });
    check_old_age(&mut o);
    assert!(!o.old_age);
    assert!(!o.died);
}

#[test]
fn flags_are_never_cleared() {
    let mut rng = GameRng::new(5);
    let mut o = spawn_food(Vec2 { x: 0, y: 0 }, 10_000, 5_000, 500, 8, 0, 0, 64_000, &mut rng);
    o.died = true;
    o.starved = true;
    check_starvation(&mut o);
    check_old_age(&mut o);
    assert!(o.died);
    assert!(o.starved);
}

#[test]
fn removal_takes_only_died_and_eligible_organisms() {
    let mut rng = GameRng::new(5);
    let base = spawn_food(Vec2 { x: 0, y: 0 }, 10_000, 5_000, 500, 8, 0, 0, 64_000, &mut rng);

    let alive = base;
    let mut died_eligible = base;
    died_eligible.died = true;
    died_eligible.can_die = true;
    let mut died_protected = base;
    died_protected.died = true;
    let mut eligible_alive = base;
    eligible_alive.can_die = true;

    let mut organisms = vec![alive, died_eligible, died_protected, eligible_alive];
    remove_died(&mut organisms);
    assert_eq!(organisms.len(), 3);
    assert_eq!(organisms[0], alive);
    assert_eq!(organisms[1], died_protected);
    assert_eq!(organisms[2], eligible_alive);
}
