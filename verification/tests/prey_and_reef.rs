use ocean::color::Color;
use ocean::crab::Crab;
use ocean::diet::{Diet, DIET_COUNT};
use ocean::prey::{Algae, Clam, Minnow, Prey, Shrimp, DRAW_BOUND};
use ocean::reef::Reef;

fn any_crab() -> Crab {
    Crab::new(String::from("Sebastian"), 7, Color::new(1, 2, 3), Diet::Fish)
}

#[test]
fn each_kind_has_its_diet() {
    assert_eq!(Prey::Minnow(Minnow::new(25)).diet(), Diet::Fish);
    assert_eq!(Prey::Shrimp(Shrimp::new(1)).diet(), Diet::Shellfish);
    assert_eq!(Prey::Clam(Clam::new()).diet(), Diet::Shellfish);
    assert_eq!(Prey::Algae(Algae::new()).diet(), Diet::Plants);
}

#[test]
fn minnow_escapes_on_a_draw_below_its_speed() {
    let minnow = Minnow::new(25);
    assert!(minnow.escapes_on(0));
    assert!(minnow.escapes_on(24));
    assert!(!minnow.escapes_on(25));
    assert!(!minnow.escapes_on(99));
    assert!(!Minnow::new(0).escapes_on(0));
}

#[test]
fn minnow_with_full_speed_escapes_whatever_the_draw() {
    assert_eq!(DRAW_BOUND, 100);
    let crab = any_crab();
    let mut minnow = Minnow::new(DRAW_BOUND);
    for _ in 0..200 {
        assert!(minnow.try_escape(&crab));
    }
    assert_eq!(minnow, Minnow::new(100));
}

#[test]
fn minnow_without_speed_never_escapes() {
    let crab = any_crab();
    let mut prey = Prey::Minnow(Minnow::new(0));
    for _ in 0..200 {
        assert!(!prey.try_escape(&crab));
    }
    assert_eq!(prey, Prey::Minnow(Minnow::new(0)));
}

#[test]
fn minnow_of_middling_speed_escapes_sometimes() {
    let crab = any_crab();
    let mut minnow = Minnow::new(50);
    let mut escapes: u32 = 0;
    for _ in 0..2000 {
        if minnow.try_escape(&crab) {
            escapes += 1;
        }
    }
    assert!(escapes > 0);
    assert!(escapes < 2000);
}

#[test]
fn shrimp_escapes_once_for_each_unit_of_energy() {
    let crab = any_crab();
    let mut shrimp = Shrimp::new(2);
    assert!(shrimp.try_escape(&crab));
    assert_eq!(shrimp, Shrimp::new(1));
    assert!(shrimp.try_escape(&crab));
    assert_eq!(shrimp, Shrimp::new(0));
    assert!(!shrimp.try_escape(&crab));
    assert_eq!(shrimp, Shrimp::new(0));
}

#[test]
fn shrimp_as_prey_spends_its_energy() {
    let crab = any_crab();
    let mut prey = Prey::Shrimp(Shrimp::new(1));
    assert!(prey.try_escape(&crab));
    assert_eq!(prey, Prey::Shrimp(Shrimp::new(0)));
    assert!(!prey.try_escape(&crab));
    assert_eq!(prey, Prey::Shrimp(Shrimp::new(0)));
}

#[test]
fn clams_and_algae_never_escape() {
    let crab = any_crab();
    let mut clam = Prey::Clam(Clam::new());
    let mut algae = Prey::Algae(Algae::new());
    for _ in 0..10 {
        assert!(!clam.try_escape(&crab));
        assert!(!algae.try_escape(&crab));
    }
    assert!(!Clam::new().try_escape(&crab));
    assert!(!Algae::new().try_escape(&crab));
}

#[test]
fn diet_tags_by_index() {
    assert_eq!(DIET_COUNT, 3);
    assert_eq!(Diet::from_index(0), Some(Diet::Fish));
    assert_eq!(Diet::from_index(1), Some(Diet::Plants));
    assert_eq!(Diet::from_index(2), Some(Diet::Shellfish));
    assert_eq!(Diet::from_index(3), None);
    assert_eq!(Diet::from_index(u32::MAX), None);
}

#[test]
fn random_diet_is_one_of_the_tags_and_not_always_the_same() {
    let mut seen = [false; 3];
    for _ in 0..600 {
        match Diet::random_diet() {
            Diet::Fish => seen[0] = true,
            Diet::Plants => seen[1] = true,
            Diet::Shellfish => seen[2] = true,
        }
    }
    assert_eq!(seen, [true, true, true]);
}

#[test]
fn new_reef_is_empty() {
    let mut reef = Reef::new();
    assert_eq!(reef.population(), 0);
    assert_eq!(reef.take_prey(), None);
    assert_eq!(reef.population(), 0);
}

#[test]
fn reef_hands_out_prey_in_the_order_of_arrival() {
    let mut reef = Reef::new();
    reef.add_prey(Prey::Minnow(Minnow::new(1)));
    reef.add_prey(Prey::Clam(Clam::new()));
    reef.add_prey(Prey::Minnow(Minnow::new(3)));
    assert_eq!(reef.population(), 3);
    assert_eq!(reef.take_prey(), Some(Prey::Minnow(Minnow::new(1))));
    assert_eq!(reef.population(), 2);
    reef.add_prey(Prey::Algae(Algae::new()));
    assert_eq!(reef.take_prey(), Some(Prey::Clam(Clam::new())));
    assert_eq!(reef.take_prey(), Some(Prey::Minnow(Minnow::new(3))));
    assert_eq!(reef.take_prey(), Some(Prey::Algae(Algae::new())));
    assert_eq!(reef.take_prey(), None);
    assert_eq!(reef.population(), 0);
}

#[test]
fn taking_as_often_as_the_population_empties_the_reef() {
    let mut reef = Reef::new();
    for speed in 0..20 {
        reef.add_prey(Prey::Minnow(Minnow::new(speed)));
    }
    let mut speeds: Vec<u32> = Vec::new();
    for _ in 0..20 {
        match reef.take_prey() {
            Some(Prey::Minnow(minnow)) => speeds.push(minnow.speed),
            other => panic!("expected a minnow, got {:?}", other),
        }
    }
    assert_eq!(reef.population(), 0);
    assert_eq!(speeds, (0..20).collect::<Vec<u32>>());
}

#[test]
fn most_recently_added_prey_is_seen_last() {
    let mut reef = Reef::new();
    reef.add_prey(Prey::Clam(Clam::new()));
    reef.add_prey(Prey::Shrimp(Shrimp::new(9)));
    let seen: Vec<&Prey> = reef.prey().iter().collect();
    assert_eq!(seen.len(), 2);
    assert_eq!(*seen[1], Prey::Shrimp(Shrimp::new(9)));
}
