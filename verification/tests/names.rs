use asteroids::names::{has_prefix, is_asteroid_name, same_text};

#[test]
fn asteroid_names_start_with_the_prefix() {
    assert!(is_asteroid_name("Asteroid"));
    assert!(is_asteroid_name("Asteroid_L"));
    assert!(is_asteroid_name("Asteroid_1"));
    assert!(is_asteroid_name("Asteroids"));
    assert!(!is_asteroid_name("asteroid_L"));
    assert!(!is_asteroid_name("Asteroi"));
    assert!(!is_asteroid_name(""));
    assert!(!is_asteroid_name("Spaceship"));
    assert!(!is_asteroid_name(" Asteroid"));
    assert!(!is_asteroid_name("Debris"));
}

#[test]
fn prefix_and_equality_compare_characters() {
    assert!(has_prefix("héllo", "hé"));
    assert!(!has_prefix("hello", "hé"));
    assert!(has_prefix("abc", ""));
    assert!(!has_prefix("ab", "abc"));
    assert!(same_text("", ""));
    assert!(same_text("Laser", "Laser"));
    assert!(!same_text("Laser", "Lasers"));
    assert!(!same_text("Laser", "Lazer"));
    assert!(!same_text("é", "e"));
}
