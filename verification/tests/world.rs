use ocean::beach::Beach;
use ocean::color::Color;
use ocean::cookbook::{Cookbook, Recipe};
use ocean::crab::Crab;
use ocean::diet::Diet;
use ocean::ocean::{Ocean, MINNOW_SPEED, SHRIMP_ENERGY};
use ocean::prey::{Algae, Clam, Minnow, Prey, Shrimp};

fn crab(name: &str, speed: u32) -> Crab {
    Crab::new(String::from(name), speed, Color::new(10, 20, 30), Diet::Shellfish)
}

fn beach_of(speeds: Vec<u32>) -> Beach {
    let mut beach = Beach::new();
    for (i, speed) in speeds.into_iter().enumerate() {
        beach.add_crab(crab(&format!("crab{}", i), speed));
    }
    beach
}

#[test]
fn color_crossing_takes_the_mean_of_each_channel() {
    let crossed = Color::cross(&Color::new(10, 20, 255), &Color::new(20, 41, 255));
    assert_eq!(crossed, Color::new(15, 30, 255));
    assert_eq!(
        Color::cross(&Color::new(0, 1, 255), &Color::new(0, 0, 0)),
        Color::new(0, 0, 127)
    );
}

#[test]
fn new_crab_has_what_it_was_given_and_no_reefs() {
    let crab = Crab::new(String::from("Ferris"), 42, Color::new(1, 2, 3), Diet::Plants);
    assert_eq!(crab.name(), "Ferris");
    assert_eq!(crab.speed(), 42);
    assert_eq!(*crab.color(), Color::new(1, 2, 3));
    assert_eq!(crab.diet(), Diet::Plants);
    assert!(crab.reefs().is_empty());
}

#[test]
fn discovered_reefs_are_kept_in_order() {
    let mut crab = crab("Ferris", 1);
    crab.discover_reef(3);
    crab.discover_reef(0);
    crab.discover_reef(3);
    assert_eq!(*crab.reefs(), vec![3, 0, 3]);
    assert_eq!(crab.name(), "Ferris");
    assert_eq!(crab.speed(), 1);
}

#[test]
fn bred_crab_has_the_fixed_fields() {
    let a = Crab::new(String::from("A"), 77, Color::new(10, 20, 30), Diet::Fish);
    let mut b = Crab::new(String::from("B"), 99, Color::new(20, 40, 61), Diet::Fish);
    b.discover_reef(0);
    for _ in 0..50 {
        let child = Crab::breed(&a, &b, String::from("X"));
        assert_eq!(child.speed(), 1);
        assert_eq!(child.name(), "X");
        assert!(child.reefs().is_empty());
        assert_eq!(*child.color(), Color::new(15, 30, 45));
        assert!(matches!(
            child.diet(),
            Diet::Fish | Diet::Plants | Diet::Shellfish
        ));
    }
    assert_eq!(a.speed(), 77);
    assert_eq!(*b.reefs(), vec![0]);
}

#[test]
fn fastest_of_three_crabs() {
    let beach = beach_of(vec![3, 9, 5]);
    let fastest = beach.get_fastest_crab();
    assert_eq!(fastest.map(|crab| crab.speed()), Some(9));
    assert_eq!(fastest.map(|crab| crab.name()), Some("crab1"));
}

#[test]
fn no_fastest_crab_on_an_empty_beach() {
    let beach = Beach::new();
    assert!(beach.get_fastest_crab().is_none());
    assert_eq!(beach.size(), 0);
}

#[test]
fn last_of_the_equally_fast_crabs_is_the_fastest() {
    let beach = beach_of(vec![9, 4, 9, 2]);
    assert_eq!(beach.get_fastest_crab().map(|crab| crab.name()), Some("crab2"));
    let lone = beach_of(vec![0]);
    assert_eq!(lone.get_fastest_crab().map(|crab| crab.name()), Some("crab0"));
}

#[test]
fn beach_keeps_crabs_in_order() {
    let mut beach = Beach::new();
    beach.add_crab(crab("one", 1));
    beach.add_crab(crab("two", 2));
    assert_eq!(beach.size(), 2);
    assert_eq!(beach.get_crab(0).name(), "one");
    assert_eq!(beach.get_crab(1).name(), "two");
    let names: Vec<&str> = beach.crabs().iter().map(|crab| crab.name()).collect();
    assert_eq!(names, vec!["one", "two"]);
}

#[test]
fn crabs_are_found_by_name() {
    let mut beach = Beach::new();
    beach.add_crab(crab("Ferris", 1));
    beach.add_crab(crab("Sebastian", 2));
    beach.add_crab(crab("Ferris", 3));
    let found = beach.find_crabs_by_name("Ferris");
    let speeds: Vec<u32> = found.iter().map(|crab| crab.speed()).collect();
    assert_eq!(speeds, vec![1, 3]);
    assert!(beach.find_crabs_by_name("Nobody").is_empty());
    assert!(beach.find_crabs_by_name("ferris").is_empty());
}

#[test]
fn breeding_on_the_beach_adds_the_child_at_the_end() {
    let mut beach = Beach::new();
    beach.add_crab(Crab::new(String::from("A"), 5, Color::new(0, 100, 200), Diet::Fish));
    beach.add_crab(Crab::new(String::from("B"), 6, Color::new(100, 100, 100), Diet::Plants));
    let i: usize = 1;
    let j: usize = 0;
    assert!(i < beach.size() && j < beach.size());
    beach.breed_crabs(i, j, String::from("C"));
    assert_eq!(beach.size(), 3);
    assert_eq!(beach.get_crab(0).name(), "A");
    assert_eq!(beach.get_crab(1).name(), "B");
    let child = beach.get_crab(2);
    assert_eq!(child.name(), "C");
    assert_eq!(child.speed(), 1);
    assert_eq!(*child.color(), Color::new(50, 100, 150));
    assert!(child.reefs().is_empty());
}

#[test]
fn crab_chooses_the_first_recipe_of_its_diet() {
    let mut book = Cookbook::new();
    book.add_recipe(Recipe::new(String::from("salad"), Diet::Plants));
    book.add_recipe(Recipe::new(String::from("chowder"), Diet::Shellfish));
    book.add_recipe(Recipe::new(String::from("paella"), Diet::Shellfish));
    let eater = crab("Ferris", 1);
    assert_eq!(eater.choose_recipe(&book).map(|recipe| recipe.name()), Some("chowder"));
    assert_eq!(eater.choose_recipe(&book).map(|recipe| recipe.diet()), Some(Diet::Shellfish));
    let fish_eater = Crab::new(String::from("Finn"), 1, Color::new(0, 0, 0), Diet::Fish);
    assert!(fish_eater.choose_recipe(&book).is_none());
    assert!(eater.choose_recipe(&Cookbook::new()).is_none());
    assert_eq!(book.recipes().len(), 3);
}

#[test]
fn new_ocean_is_empty() {
    let ocean = Ocean::new();
    assert!(ocean.reefs().is_empty());
    assert!(ocean.beaches().is_empty());
}

#[test]
fn generated_reef_holds_each_kind_in_turn() {
    assert_eq!(MINNOW_SPEED, 25);
    assert_eq!(SHRIMP_ENERGY, 1);
    let mut ocean = Ocean::new();
    let first = ocean.generate_reef(2, 1, 0, 3);
    let second = ocean.generate_reef(0, 0, 2, 0);
    let third = ocean.generate_reef(0, 0, 0, 0);
    assert_eq!((first, second, third), (0, 1, 2));
    assert_eq!(ocean.reefs().len(), 3);
    let residents: Vec<&Prey> = ocean.reefs()[first].prey().iter().collect();
    assert_eq!(
        residents,
        vec![
            &Prey::Minnow(Minnow::new(25)),
            &Prey::Minnow(Minnow::new(25)),
            &Prey::Shrimp(Shrimp::new(1)),
            &Prey::Algae(Algae::new()),
            &Prey::Algae(Algae::new()),
            &Prey::Algae(Algae::new()),
        ]
    );
    let residents: Vec<&Prey> = ocean.reefs()[second].prey().iter().collect();
    assert_eq!(residents, vec![&Prey::Clam(Clam::new()), &Prey::Clam(Clam::new())]);
    assert_eq!(ocean.reefs()[third].population(), 0);
}

#[test]
fn ocean_keeps_beaches_in_order() {
    let mut ocean = Ocean::new();
    ocean.add_beach(beach_of(vec![1, 2]));
    ocean.add_beach(Beach::new());
    ocean.generate_reef(1, 1, 1, 1);
    let sizes: Vec<usize> = ocean.beaches().iter().map(|beach| beach.size()).collect();
    assert_eq!(sizes, vec![2, 0]);
    assert_eq!(ocean.reefs().len(), 1);
}

#[test]
fn crabs_of_the_ocean_hunt_in_its_reefs() {
    let mut ocean = Ocean::new();
    let near = ocean.generate_reef(0, 0, 1, 2);
    let far = ocean.generate_reef(0, 1, 1, 0);
    let mut beach = Beach::new();
    let mut hunter = crab("Ferris", 4);
    hunter.discover_reef(near);
    hunter.discover_reef(far);
    beach.add_crab(hunter);
    ocean.add_beach(beach);

    let reef_count: usize = ocean.reefs.len();
    assert!(ocean.beaches[0].crabs[0].forages_within(reef_count));
    assert!(ocean.beaches[0].crabs[0].hunt(&mut ocean.reefs));
    assert_eq!(ocean.reefs()[near].population(), 2);
    assert_eq!(ocean.reefs()[far].population(), 2);
    assert!(ocean.beaches[0].crabs[0].hunt(&mut ocean.reefs));
    assert_eq!(ocean.reefs()[near].population(), 2);
    assert_eq!(ocean.reefs()[far].population(), 1);
    let left: Vec<&Prey> = ocean.reefs()[far].prey().iter().collect();
    assert_eq!(left, vec![&Prey::Shrimp(Shrimp::new(0))]);
    assert!(ocean.beaches[0].crabs[0].hunt(&mut ocean.reefs));
    assert!(!ocean.beaches[0].crabs[0].hunt(&mut ocean.reefs));
    assert_eq!(ocean.reefs()[near].population(), 2);
    assert_eq!(ocean.reefs()[far].population(), 0);
}
