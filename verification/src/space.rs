//! Space: the passive topographic field.
//!
//! A space wraps one density grid under a single global habitability
//! threshold, deriving the regime sub-thresholds from it. It exposes read,
//! contribute and decay operations and holds no carrier state.

use vstd::prelude::*;

use crate::grid::DensityGrid;
use crate::grid::GridView;
use crate::grid::Regime;

verus! {

/// Mathematical model of a space: its grid plus the habitability threshold.
pub struct SpaceView {
    pub grid: GridView,
    pub threshold: u32,
}

impl SpaceView {
    /// The grid is well formed and its regime thresholds are the ones this
    /// space derives: solid at the habitability threshold, liquid at half of
    /// it.
    pub open spec fn wf(self) -> bool {
        &&& self.grid.wf()
        &&& self.grid.solid_threshold == self.threshold
        &&& self.grid.liquid_threshold == self.threshold / 2
    }

    /// A position is habitable while it lies in range and its density sits
    /// strictly below the habitability threshold; an out-of-range position
    /// is never habitable.
    pub open spec fn habitable_at(self, x: int, y: int) -> bool {
        self.grid.in_bounds(x, y) && self.grid.density_at(x, y) < self.threshold
    }
}

/// The topographic execution space.
pub struct Space {
    /// Trace density grid.
    trace: DensityGrid,
    /// Global habitability threshold.
    threshold: u32,
}

impl View for Space {
    type V = SpaceView;

    closed spec fn view(&self) -> SpaceView {
        SpaceView { grid: self.trace@, threshold: self.threshold }
    }
}

impl Space {
    /// Create a new space over a zero-initialized grid. The solid threshold
    /// is the habitability threshold; the liquid threshold is half of it
    /// (a simplification: finer control requires constructing the grid
    /// directly).
    pub fn new(width: usize, height: usize, decay_rate: u32, threshold: u32) -> (s: Space)
        requires
            width * height <= usize::MAX,
        ensures
            s@.wf(),
            s@.threshold == threshold,
            s@.grid.width == width,
            s@.grid.height == height,
            s@.grid.decay_rate == decay_rate,
            s@.grid.cells == Seq::new((width * height) as nat, |i: int| 0u32),
    {
        let solid: u32 = threshold;
        let liquid: u32 = threshold / 2;
        let trace = DensityGrid::new(width, height, decay_rate, solid, liquid);
        Space { trace, threshold }
    }

    /// Whether a position is habitable: in range, with density strictly
    /// below the threshold.
    pub fn is_habitable(&self, x: usize, y: usize) -> (r: bool)
        requires
            self@.wf(),
        ensures
            r == self@.habitable_at(x as int, y as int),
    {
        self.trace.is_habitable(x, y, self.threshold)
    }

    /// Density at a position; out-of-range positions read as 0.
    pub fn density(&self, x: usize, y: usize) -> (d: u32)
        requires
            self@.wf(),
        ensures
            d == self@.grid.density_at(x as int, y as int),
    {
        self.trace.density(x, y)
    }

    /// Regime at a position.
    pub fn regime(&self, x: usize, y: usize) -> (r: Regime)
        requires
            self@.wf(),
        ensures
            r == self@.grid.regime_at(x as int, y as int),
    {
        self.trace.regime(x, y)
    }

    /// Contribute trace at a position (side effect of presence).
    pub fn contribute(&mut self, x: usize, y: usize, amount: u32)
        requires
            old(self)@.wf(),
        ensures
            final(self)@.grid == old(self)@.grid.contributed(x as int, y as int, amount),
            final(self)@.threshold == old(self)@.threshold,
            final(self)@.wf(),
    {
        self.trace.contribute(x, y, amount);
    }

    /// Apply the decay projection: every cell loses the decay rate,
    /// saturating at 0. Called once per tick.
    pub fn tick(&mut self)
        requires
            old(self)@.wf(),
        ensures
            final(self)@.grid == old(self)@.grid.decayed(),
            final(self)@.threshold == old(self)@.threshold,
            final(self)@.wf(),
    {
        self.trace.apply_decay();
    }

    /// Space dimensions, `(width, height)`.
    pub fn dimensions(&self) -> (d: (usize, usize))
        ensures
            d.0 as nat == self@.grid.width,
            d.1 as nat == self@.grid.height,
    {
        self.trace.dimensions()
    }

    /// The configured habitability threshold.
    pub fn threshold(&self) -> (t: u32)
        ensures
            t == self@.threshold,
    {
        self.threshold
    }
}

} // verus!
