use tes::DensityGrid;
use tes::Regime;

#[test]
fn test_contribution_and_decay() {
    let mut grid = DensityGrid::new(10, 10, 10, 1000, 500);

    // Contribute
    grid.contribute(5, 5, 100);
    assert_eq!(grid.density(5, 5), 100);

    // Decay
    grid.apply_decay();
    assert_eq!(grid.density(5, 5), 90);
}

#[test]
fn test_regime_transitions() {
    let mut grid = DensityGrid::new(10, 10, 0, 1000, 500);

    // Gas initially
    assert_eq!(grid.regime(0, 0), Regime::Gas);

    // Contribute to Liquid
    grid.contribute(0, 0, 600);
    assert_eq!(grid.regime(0, 0), Regime::Liquid);

    // Contribute to Solid
    grid.contribute(0, 0, 500);
    assert_eq!(grid.regime(0, 0), Regime::Solid);
}

#[test]
fn test_source_amnesia() {
    let mut grid = DensityGrid::new(10, 10, 0, 1000, 500);

    // Multiple contributions from "different sources",
    // but there is no way to know who contributed what.
    grid.contribute(3, 3, 50);
    grid.contribute(3, 3, 30);
    grid.contribute(3, 3, 20);

    // Only the total density is known.
    assert_eq!(grid.density(3, 3), 100);
}

#[test]
fn test_out_of_range_access_is_silent() {
    let mut grid = DensityGrid::new(4, 3, 0, 1000, 500);

    // Out-of-range reads return defaults: density 0, Gas, not habitable.
    assert_eq!(grid.density(4, 0), 0);
    assert_eq!(grid.density(0, 3), 0);
    assert_eq!(grid.regime(9, 9), Regime::Gas);
    assert!(!grid.is_habitable(9, 9, 1));
    assert!(!grid.is_habitable(9, 9, 0));
    // In range, habitability is a strict density comparison.
    assert!(grid.is_habitable(0, 0, 1));
    assert!(!grid.is_habitable(0, 0, 0));

    // Out-of-range writes are no-ops.
    grid.contribute(4, 0, 100);
    grid.contribute(0, 3, 100);
    for y in 0..3 {
        for x in 0..4 {
            assert_eq!(grid.density(x, y), 0);
        }
    }
}

#[test]
fn test_contribution_saturates_at_max() {
    let mut grid = DensityGrid::new(2, 2, 0, 1000, 500);

    grid.contribute(1, 1, u32::MAX - 5);
    grid.contribute(1, 1, 10);
    assert_eq!(grid.density(1, 1), u32::MAX);

    // Further contribution stays saturated.
    grid.contribute(1, 1, 1);
    assert_eq!(grid.density(1, 1), u32::MAX);
}

#[test]
fn test_decay_saturates_at_zero() {
    let mut grid = DensityGrid::new(2, 2, 10, 1000, 500);

    grid.contribute(0, 0, 5);
    grid.apply_decay();
    assert_eq!(grid.density(0, 0), 0);

    // Decay on an empty cell stays at zero.
    grid.apply_decay();
    assert_eq!(grid.density(0, 0), 0);
}

#[test]
fn test_regime_boundaries_classify_lower() {
    let mut grid = DensityGrid::new(2, 2, 0, 1000, 500);

    // Exactly at the liquid threshold is still Gas.
    grid.contribute(0, 0, 500);
    assert_eq!(grid.regime(0, 0), Regime::Gas);

    // Exactly at the solid threshold is still Liquid.
    grid.contribute(0, 0, 500);
    assert_eq!(grid.regime(0, 0), Regime::Liquid);
}

#[test]
fn test_repeated_decay_formula() {
    // density after n decays = max(0, initial - n * decay_rate)
    let mut grid = DensityGrid::new(10, 10, 7, 1000, 500);
    grid.contribute(2, 6, 30);

    grid.apply_decay();
    assert_eq!(grid.density(2, 6), 23);
    grid.apply_decay();
    assert_eq!(grid.density(2, 6), 16);
    grid.apply_decay();
    assert_eq!(grid.density(2, 6), 9);
    grid.apply_decay();
    assert_eq!(grid.density(2, 6), 2);
    grid.apply_decay();
    assert_eq!(grid.density(2, 6), 0);
    grid.apply_decay();
    assert_eq!(grid.density(2, 6), 0);
}

#[test]
fn test_source_amnesia_any_order_any_split() {
    // Two histories over several cells, with different orders and different
    // splits into contributors but the same per-cell totals, leave fields
    // that no observation tells apart.
    let mut first = DensityGrid::new(4, 4, 0, 100, 50);
    first.contribute(0, 0, 60);
    first.contribute(2, 3, 30);
    first.contribute(0, 0, 60);
    first.contribute(1, 1, 101);

    let mut second = DensityGrid::new(4, 4, 0, 100, 50);
    second.contribute(1, 1, 100);
    second.contribute(0, 0, 40);
    second.contribute(2, 3, 10);
    second.contribute(0, 0, 40);
    second.contribute(2, 3, 20);
    second.contribute(1, 1, 1);
    second.contribute(0, 0, 40);

    for y in 0..4 {
        for x in 0..4 {
            assert_eq!(first.density(x, y), second.density(x, y));
            assert_eq!(first.regime(x, y), second.regime(x, y));
            assert_eq!(first.is_habitable(x, y, 100), second.is_habitable(x, y, 100));
        }
    }
}

#[test]
fn test_regime_depends_only_on_density() {
    // The same density under the same thresholds classifies the same,
    // however the density was assembled and wherever it sits.
    let mut one_deposit = DensityGrid::new(10, 10, 0, 1000, 500);
    one_deposit.contribute(0, 0, 600);

    let mut many_deposits = DensityGrid::new(3, 3, 9, 1000, 500);
    many_deposits.contribute(2, 1, 200);
    many_deposits.contribute(2, 1, 200);
    many_deposits.contribute(2, 1, 200);

    assert_eq!(one_deposit.density(0, 0), many_deposits.density(2, 1));
    assert_eq!(one_deposit.regime(0, 0), many_deposits.regime(2, 1));
}

#[test]
fn test_dimensions() {
    let grid = DensityGrid::new(7, 3, 0, 10, 5);
    assert_eq!(grid.dimensions(), (7, 3));
}

#[test]
fn test_zero_sized_grid_is_inert() {
    let mut grid = DensityGrid::new(0, 0, 1, 10, 5);
    grid.contribute(0, 0, 100);
    assert_eq!(grid.density(0, 0), 0);
    grid.apply_decay();
    assert_eq!(grid.density(0, 0), 0);
}
