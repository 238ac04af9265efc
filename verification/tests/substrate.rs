use tes::Regime;
use tes::Substrate;

#[test]
fn test_substrate_simulation() {
    let mut sub = Substrate::new(10, 10, 5, 100);

    // Spawn a shape
    let id = sub.spawn(5, 5, 20, 10);
    assert!(id.is_some());
    assert_eq!(sub.shape_count(), 1);

    // Run simulation
    sub.run(10);

    // Check trace accumulation:
    // 10 contributions of 10, minus 10 decays of 5 = 50
    let density = sub.space().density(5, 5);
    assert_eq!(density, 50);
}

#[test]
fn test_habitability_blocking() {
    let mut sub = Substrate::new(10, 10, 0, 50); // No decay, threshold 50

    // First spawn succeeds
    assert!(sub.spawn(3, 3, 100, 60).is_some());

    // After one tick, density = 60 > threshold 50
    sub.tick();

    // Second spawn at same position should fail
    assert!(sub.spawn(3, 3, 100, 10).is_none());
}

#[test]
fn test_death_removes_shapes() {
    let mut sub = Substrate::new(10, 10, 0, 1000);

    // Spawn with lifetime 5
    sub.spawn(0, 0, 5, 1);
    assert_eq!(sub.shape_count(), 1);

    // After 5 ticks, shape should be dead
    sub.run(5);
    assert_eq!(sub.shape_count(), 0);
}

#[test]
fn test_ghost_trace_prevention() {
    let mut sub = Substrate::new(10, 10, 0, 1000);

    // Spawn with lifetime 3
    sub.spawn(2, 2, 3, 10);

    // Run 3 ticks (shape dies)
    sub.run(3);

    // Density should be 30 (3 contributions)
    let density = sub.space().density(2, 2);
    assert_eq!(density, 30);

    // Run more ticks - no more contribution (ghost trace prevented)
    sub.run(3);
    assert_eq!(sub.space().density(2, 2), 30);
}

#[test]
fn test_regime_evolution() {
    let mut sub = Substrate::new(10, 10, 0, 100);

    // Initially Gas
    assert_eq!(sub.space().regime(5, 5), Regime::Gas);

    // Spawn and accumulate
    sub.spawn(5, 5, 100, 20);
    sub.run(3); // density = 60 > liquid (50)

    assert_eq!(sub.space().regime(5, 5), Regime::Liquid);

    sub.run(3); // density = 120 > solid (100)
    assert_eq!(sub.space().regime(5, 5), Regime::Solid);
}

#[test]
fn test_lifetime_exhaustion_leaves_trace_fixed() {
    let mut sub = Substrate::new(10, 10, 0, 1000);

    assert!(sub.spawn(2, 2, 3, 10).is_some());
    sub.run(3);
    assert_eq!(sub.space().density(2, 2), 30);
    assert_eq!(sub.shape_count(), 0);

    sub.run(3);
    assert_eq!(sub.space().density(2, 2), 30);
    assert_eq!(sub.shape_count(), 0);
}

#[test]
fn test_spawn_blocked_exactly_at_threshold() {
    let mut sub = Substrate::new(10, 10, 0, 50);

    assert!(sub.spawn(3, 3, 100, 60).is_some());
    sub.tick();
    assert_eq!(sub.space().density(3, 3), 60);

    // 60 >= 50: blocked at the same cell; elsewhere still free.
    assert!(sub.spawn(3, 3, 100, 10).is_none());
    assert!(sub.spawn(4, 3, 100, 10).is_some());
}

#[test]
fn test_spawn_succeeds_just_below_threshold() {
    let mut sub = Substrate::new(10, 10, 0, 50);

    assert!(sub.spawn(1, 1, 100, 49).is_some());
    sub.tick();
    assert_eq!(sub.space().density(1, 1), 49);

    // 49 < 50: the cell is still habitable.
    assert!(sub.spawn(1, 1, 100, 1).is_some());
    sub.tick();
    assert_eq!(sub.space().density(1, 1), 99);

    // 99 >= 50: now blocked.
    assert!(sub.spawn(1, 1, 100, 1).is_none());
}

#[test]
fn test_ids_are_monotonic_and_never_reused() {
    let mut sub = Substrate::new(10, 10, 0, 1000);

    assert_eq!(sub.spawn(0, 0, 1, 1), Some(1));
    assert_eq!(sub.spawn(1, 0, 1, 1), Some(2));

    // Both shapes die and are purged.
    sub.tick();
    assert_eq!(sub.shape_count(), 0);

    // New spawns keep counting; purged ids never come back.
    assert_eq!(sub.spawn(0, 1, 1, 1), Some(3));
}

#[test]
fn test_purge_timing_is_exact() {
    // A shape with lifetime 3 is present through its third tick's start and
    // gone from that tick's end, whatever the decay rate does to the field.
    let mut sub = Substrate::new(10, 10, 7, 1000);
    assert!(sub.spawn(4, 4, 3, 10).is_some());

    sub.tick();
    assert_eq!(sub.shape_count(), 1);
    sub.tick();
    assert_eq!(sub.shape_count(), 1);
    sub.tick();
    assert_eq!(sub.shape_count(), 0);

    // Three deposits of 10, three decays of 7.
    assert_eq!(sub.space().density(4, 4), 9);
    sub.tick();
    assert_eq!(sub.space().density(4, 4), 2);
}

#[test]
fn test_tick_count_advances() {
    let mut sub = Substrate::new(4, 4, 0, 100);
    assert_eq!(sub.tick_count(), 0);
    sub.tick();
    assert_eq!(sub.tick_count(), 1);
    sub.run(9);
    assert_eq!(sub.tick_count(), 10);
}

#[test]
fn test_density_map_is_row_major() {
    let mut sub = Substrate::new(3, 2, 0, 1000);

    assert!(sub.spawn(2, 0, 1, 7).is_some());
    assert!(sub.spawn(0, 1, 1, 9).is_some());
    sub.tick();

    let map = sub.density_map();
    assert_eq!(map.len(), 6);
    // Row-major: y outer, x inner.
    assert_eq!(map, vec![0, 0, 7, 9, 0, 0]);
}

#[test]
fn test_space_accessor() {
    let sub = Substrate::new(8, 6, 2, 75);
    assert_eq!(sub.space().dimensions(), (8, 6));
    assert_eq!(sub.space().threshold(), 75);
    assert!(sub.space().is_habitable(0, 0));
}

#[test]
fn test_out_of_range_spawn_is_rejected() {
    // An out-of-range cell is never habitable, so no shape is admitted
    // there: positions are bounded to the field's dimensions at spawn time.
    let mut sub = Substrate::new(2, 2, 0, 100);

    assert!(sub.spawn(2, 0, 2, 40).is_none());
    assert!(sub.spawn(0, 2, 2, 40).is_none());
    assert!(sub.spawn(5, 5, 2, 40).is_none());
    assert_eq!(sub.shape_count(), 0);

    sub.tick();
    assert_eq!(sub.density_map(), vec![0, 0, 0, 0]);

    // The last in-range cell is still open.
    assert!(sub.spawn(1, 1, 2, 40).is_some());
}
