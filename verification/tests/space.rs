use tes::Regime;
use tes::Space;

#[test]
fn test_space_derives_sub_thresholds() {
    // Solid threshold = habitability threshold, liquid = half of it.
    let mut space = Space::new(10, 10, 0, 1000);
    assert_eq!(space.threshold(), 1000);

    space.contribute(0, 0, 500);
    assert_eq!(space.regime(0, 0), Regime::Gas);

    space.contribute(0, 0, 100);
    assert_eq!(space.regime(0, 0), Regime::Liquid);

    space.contribute(0, 0, 500);
    assert_eq!(space.regime(0, 0), Regime::Solid);
}

#[test]
fn test_space_habitability() {
    let mut space = Space::new(10, 10, 0, 100);
    assert!(space.is_habitable(4, 4));

    space.contribute(4, 4, 99);
    assert!(space.is_habitable(4, 4));

    space.contribute(4, 4, 1);
    assert!(!space.is_habitable(4, 4));

    // Other cells are unaffected.
    assert!(space.is_habitable(4, 5));
}

#[test]
fn test_space_tick_applies_one_decay() {
    let mut space = Space::new(10, 10, 25, 1000);
    space.contribute(7, 2, 60);

    space.tick();
    assert_eq!(space.density(7, 2), 35);
    space.tick();
    assert_eq!(space.density(7, 2), 10);
    space.tick();
    assert_eq!(space.density(7, 2), 0);
}

#[test]
fn test_space_dimensions_and_defaults() {
    let space = Space::new(5, 9, 1, 42);
    assert_eq!(space.dimensions(), (5, 9));
    assert_eq!(space.threshold(), 42);
    assert_eq!(space.density(0, 0), 0);
    // Out-of-range reads return the default.
    assert_eq!(space.density(5, 0), 0);
}
