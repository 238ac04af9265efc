//! Trace density grid: the heart of the substrate.
//!
//! Trace is not a data structure; it is a scalar field. The grid keeps no
//! origin information (source amnesia), only density values. Density is
//! stored as fixed point (1000 units = 1.0 conceptual density). All
//! arithmetic saturates: contribution never wraps past the representable
//! maximum and decay never drives a cell below zero.

use vstd::prelude::*;

verus! {

/// Phase regime at a given position.
#[derive(Debug, Clone, Copy, PartialEq, Eq)]
pub enum Regime {
    /// High density: low permeability, fast saturation.
    Solid,
    /// Medium density: medium permeability, diffusion.
    Liquid,
    /// Low density: high permeability, no pattern forms.
    Gas,
}

/// Saturating addition on cell values: never wraps past `u32::MAX`.
pub open spec fn sat_add(c: u32, amount: u32) -> u32 {
    if c + amount > u32::MAX {
        u32::MAX
    } else {
        (c + amount) as u32
    }
}

/// Saturating subtraction on cell values: never goes below zero.
pub open spec fn sat_sub(c: u32, amount: u32) -> u32 {
    if c < amount {
        0
    } else {
        (c - amount) as u32
    }
}

/// Regime classification: strictly above the solid threshold is `Solid`,
/// strictly above the liquid threshold is `Liquid`, anything else is `Gas`.
/// A value exactly at a threshold classifies into the lower regime.
pub open spec fn regime_of(d: u32, solid: u32, liquid: u32) -> Regime {
    if d > solid {
        Regime::Solid
    } else if d > liquid {
        Regime::Liquid
    } else {
        Regime::Gas
    }
}

/// Mathematical model of a density grid: the dimensions, the row-major cell
/// sequence, and the configuration.
pub struct GridView {
    pub width: nat,
    pub height: nat,
    /// Row-major: the cell at `(x, y)` sits at index `y * width + x`.
    pub cells: Seq<u32>,
    pub decay_rate: u32,
    pub solid_threshold: u32,
    pub liquid_threshold: u32,
}

impl GridView {
    /// The cell sequence covers the grid exactly.
    pub open spec fn wf(self) -> bool {
        self.cells.len() == self.width * self.height
    }

    pub open spec fn in_bounds(self, x: int, y: int) -> bool {
        0 <= x < self.width && 0 <= y < self.height
    }

    /// Row-major index of an in-bounds position.
    pub open spec fn index_of(self, x: int, y: int) -> int {
        y * self.width + x
    }

    /// Density at a position; out-of-range positions read as 0.
    pub open spec fn density_at(self, x: int, y: int) -> u32 {
        if self.in_bounds(x, y) {
            self.cells[self.index_of(x, y)]
        } else {
            0
        }
    }

    /// Regime at a position, a pure function of the density there and the
    /// two thresholds.
    pub open spec fn regime_at(self, x: int, y: int) -> Regime {
        regime_of(self.density_at(x, y), self.solid_threshold, self.liquid_threshold)
    }

    /// The grid after one contribution: a saturating add at the target cell,
    /// every other cell and all configuration unchanged. Out-of-range
    /// positions leave the grid as it is.
    pub open spec fn contributed(self, x: int, y: int, amount: u32) -> GridView {
        if self.in_bounds(x, y) {
            GridView {
                cells: self.cells.update(
                    self.index_of(x, y),
                    sat_add(self.cells[self.index_of(x, y)], amount),
                ),
                ..self
            }
        } else {
            self
        }
    }

    /// The grid after one decay pass: every cell loses `decay_rate`,
    /// saturating at 0; configuration unchanged.
    pub open spec fn decayed(self) -> GridView {
        GridView { cells: self.cells.map_values(|c: u32| sat_sub(c, self.decay_rate)), ..self }
    }

    /// The grid after `n` decay passes.
    pub open spec fn decayed_n(self, n: nat) -> GridView
        decreases n,
    {
        if n == 0 {
            self
        } else {
            self.decayed_n((n - 1) as nat).decayed()
        }
    }
}

/// An in-bounds position has an in-bounds row-major index.
pub proof fn lemma_row_major_index(x: int, y: int, w: int, h: int)
    requires
        0 <= x < w,
        0 <= y < h,
    ensures
        0 <= y * w + x < w * h,
{
    assert(0 <= y * w + x < w * h) by (nonlinear_arith)
        requires
            0 <= x < w,
            0 <= y < h,
    ;
}

/// With no further contribution, `n` decay passes lower an in-range cell's
/// density to `max(0, initial_density - n * decay_rate)`, and leave the
/// grid's dimensions and configuration alone.
pub proof fn lemma_repeated_decay(g: GridView, n: nat, x: int, y: int)
    requires
        g.wf(),
        g.in_bounds(x, y),
    ensures
        g.decayed_n(n).wf(),
        g.decayed_n(n).width == g.width,
        g.decayed_n(n).height == g.height,
        g.decayed_n(n).decay_rate == g.decay_rate,
        g.decayed_n(n).solid_threshold == g.solid_threshold,
        g.decayed_n(n).liquid_threshold == g.liquid_threshold,
        g.decayed_n(n).density_at(x, y) == (if g.density_at(x, y) - n * g.decay_rate >= 0 {
            g.density_at(x, y) - n * g.decay_rate
        } else {
            0
        }),
    decreases n,
{
    if n > 0 {
        lemma_repeated_decay(g, (n - 1) as nat, x, y);
        let gp = g.decayed_n((n - 1) as nat);
        lemma_row_major_index(x, y, gp.width as int, gp.height as int);
        assert((n - 1) * g.decay_rate + g.decay_rate == n * g.decay_rate) by (nonlinear_arith);
    } else {
        assert(n * g.decay_rate == 0) by (nonlinear_arith)
            requires
                n == 0,
        ;
    }
}

/// The regime at a position is a pure function of the density there and the
/// two thresholds: equal density under equal thresholds gives an equal
/// regime, whatever else either grid holds — no hidden state is consulted.
pub proof fn lemma_regime_pure(g1: GridView, x1: int, y1: int, g2: GridView, x2: int, y2: int)
    requires
        g1.density_at(x1, y1) == g2.density_at(x2, y2),
        g1.solid_threshold == g2.solid_threshold,
        g1.liquid_threshold == g2.liquid_threshold,
    ensures
        g1.regime_at(x1, y1) == g2.regime_at(x2, y2),
{
}

/// Total of a sequence of contribution amounts.
pub open spec fn sum_amounts(amounts: Seq<u32>) -> int
    decreases amounts.len(),
{
    if amounts.len() == 0 {
        0
    } else {
        sum_amounts(amounts.drop_last()) + amounts.last()
    }
}

/// The grid after each amount in the sequence has been contributed at
/// `(x, y)`, in order.
pub open spec fn contributed_seq(g: GridView, x: int, y: int, amounts: Seq<u32>) -> GridView
    decreases amounts.len(),
{
    if amounts.len() == 0 {
        g
    } else {
        contributed_seq(g, x, y, amounts.drop_last()).contributed(x, y, amounts.last())
    }
}

proof fn lemma_sum_nonneg(amounts: Seq<u32>)
    ensures
        sum_amounts(amounts) >= 0,
    decreases amounts.len(),
{
    if amounts.len() > 0 {
        lemma_sum_nonneg(amounts.drop_last());
    }
}

/// Source amnesia, the arithmetic half: after any number of deposits at an
/// in-range cell, the cell holds exactly its initial density plus the sum of
/// the amounts, saturated at `u32::MAX`. Only the total enters the field.
pub proof fn lemma_density_is_sum(g: GridView, x: int, y: int, amounts: Seq<u32>)
    requires
        g.wf(),
        g.in_bounds(x, y),
    ensures
        contributed_seq(g, x, y, amounts).wf(),
        contributed_seq(g, x, y, amounts).width == g.width,
        contributed_seq(g, x, y, amounts).height == g.height,
        contributed_seq(g, x, y, amounts).density_at(x, y) == (if g.density_at(x, y)
            + sum_amounts(amounts) > u32::MAX {
            u32::MAX as int
        } else {
            g.density_at(x, y) + sum_amounts(amounts)
        }),
    decreases amounts.len(),
{
    if amounts.len() > 0 {
        lemma_density_is_sum(g, x, y, amounts.drop_last());
        lemma_sum_nonneg(amounts.drop_last());
        let gp = contributed_seq(g, x, y, amounts.drop_last());
        lemma_row_major_index(x, y, gp.width as int, gp.height as int);
    }
}

/// A cell that received deposits from any number of carriers and then
/// decayed `n` times holds the sum of the deposited amounts minus the
/// accumulated decay, saturating at the representable maximum on the way up
/// and at zero on the way down — and nothing else.
pub proof fn lemma_deposits_then_decay(g: GridView, x: int, y: int, amounts: Seq<u32>, n: nat)
    requires
        g.wf(),
        g.in_bounds(x, y),
    ensures
        contributed_seq(g, x, y, amounts).decayed_n(n).density_at(x, y) == ({
            let raised = if g.density_at(x, y) + sum_amounts(amounts) > u32::MAX {
                u32::MAX as int
            } else {
                g.density_at(x, y) + sum_amounts(amounts)
            };
            if raised - n * g.decay_rate >= 0 {
                raised - n * g.decay_rate
            } else {
                0
            }
        }),
{
    lemma_density_is_sum(g, x, y, amounts);
    let g1 = contributed_seq(g, x, y, amounts);
    lemma_contributed_seq_config(g, x, y, amounts);
    lemma_repeated_decay(g1, n, x, y);
}

/// Deposits touch only cell contents: the configuration rides along.
proof fn lemma_contributed_seq_config(g: GridView, x: int, y: int, amounts: Seq<u32>)
    ensures
        contributed_seq(g, x, y, amounts).decay_rate == g.decay_rate,
        contributed_seq(g, x, y, amounts).solid_threshold == g.solid_threshold,
        contributed_seq(g, x, y, amounts).liquid_threshold == g.liquid_threshold,
    decreases amounts.len(),
{
    if amounts.len() > 0 {
        lemma_contributed_seq_config(g, x, y, amounts.drop_last());
    }
}

/// No operation can recover how many deposits a cell received, or of what
/// size each was: two deposit histories with the same total leave the cell
/// with the same density.
pub proof fn lemma_source_amnesia(g: GridView, x: int, y: int, a: Seq<u32>, b: Seq<u32>)
    requires
        g.wf(),
        g.in_bounds(x, y),
        sum_amounts(a) == sum_amounts(b),
    ensures
        contributed_seq(g, x, y, a).density_at(x, y) == contributed_seq(g, x, y, b).density_at(
            x,
            y,
        ),
{
    lemma_density_is_sum(g, x, y, a);
    lemma_density_is_sum(g, x, y, b);
}

/// Row-major indexing is injective: distinct in-bounds positions have
/// distinct indices.
proof fn lemma_row_major_injective(x1: int, y1: int, x2: int, y2: int, w: int, h: int)
    requires
        0 <= x1 < w,
        0 <= y1 < h,
        0 <= x2 < w,
        0 <= y2 < h,
        !(x1 == x2 && y1 == y2),
    ensures
        y1 * w + x1 != y2 * w + x2,
{
    assert(y1 * w + x1 != y2 * w + x2) by (nonlinear_arith)
        requires
            0 <= x1 < w,
            0 <= y1 < h,
            0 <= x2 < w,
            0 <= y2 < h,
            !(x1 == x2 && y1 == y2),
    ;
}

/// A deposit history: positions and amounts, in the order they landed.
/// The grid after each deposit in the history has been contributed, in
/// order; out-of-range deposits are no-ops, as in `contributed`.
pub open spec fn deposited(g: GridView, history: Seq<(int, int, u32)>) -> GridView
    decreases history.len(),
{
    if history.len() == 0 {
        g
    } else {
        deposited(g, history.drop_last()).contributed(
            history.last().0,
            history.last().1,
            history.last().2,
        )
    }
}

/// Total amount a history deposits at one cell.
pub open spec fn cell_total(history: Seq<(int, int, u32)>, x: int, y: int) -> int
    decreases history.len(),
{
    if history.len() == 0 {
        0
    } else {
        cell_total(history.drop_last(), x, y) + (if history.last().0 == x && history.last().1
            == y {
            history.last().2 as int
        } else {
            0
        })
    }
}

proof fn lemma_cell_total_nonneg(history: Seq<(int, int, u32)>, x: int, y: int)
    ensures
        cell_total(history, x, y) >= 0,
    decreases history.len(),
{
    if history.len() > 0 {
        lemma_cell_total_nonneg(history.drop_last(), x, y);
    }
}

/// Deposits touch only cell contents, wherever they land: the configuration
/// rides along through a whole history.
proof fn lemma_deposited_config(g: GridView, history: Seq<(int, int, u32)>)
    ensures
        deposited(g, history).width == g.width,
        deposited(g, history).height == g.height,
        deposited(g, history).decay_rate == g.decay_rate,
        deposited(g, history).solid_threshold == g.solid_threshold,
        deposited(g, history).liquid_threshold == g.liquid_threshold,
    decreases history.len(),
{
    if history.len() > 0 {
        lemma_deposited_config(g, history.drop_last());
    }
}

/// Each in-range cell of a grid that absorbed a whole deposit history —
/// deposits at any cells, in any order, in any split — holds exactly its
/// initial density plus the history's total at that cell, saturated at
/// `u32::MAX`. Deposits at one cell never move another.
pub proof fn lemma_history_density(g: GridView, history: Seq<(int, int, u32)>, x: int, y: int)
    requires
        g.wf(),
        g.in_bounds(x, y),
    ensures
        deposited(g, history).wf(),
        deposited(g, history).density_at(x, y) == (if g.density_at(x, y) + cell_total(
            history,
            x,
            y,
        ) > u32::MAX {
            u32::MAX as int
        } else {
            g.density_at(x, y) + cell_total(history, x, y)
        }),
    decreases history.len(),
{
    lemma_deposited_config(g, history);
    if history.len() > 0 {
        lemma_history_density(g, history.drop_last(), x, y);
        lemma_cell_total_nonneg(history.drop_last(), x, y);
        let gp = deposited(g, history.drop_last());
        let (a, b, amount) = history.last();
        lemma_row_major_index(x, y, gp.width as int, gp.height as int);
        if gp.in_bounds(a, b) {
            lemma_row_major_index(a, b, gp.width as int, gp.height as int);
            if !(a == x && b == y) {
                lemma_row_major_injective(a, b, x, y, gp.width as int, gp.height as int);
            }
        }
    }
}

/// Source amnesia in full generality: two deposit histories — any order,
/// any split into contributors, at any cells — with the same per-cell
/// totals leave fields that no observation tells apart: equal density and
/// equal regime everywhere (and so equal habitability, which is a strict
/// comparison of the density). Nothing about who deposited what, where, in
/// how many pieces, or in what order survives.
pub proof fn lemma_source_amnesia_any_history(
    g: GridView,
    first: Seq<(int, int, u32)>,
    second: Seq<(int, int, u32)>,
)
    requires
        g.wf(),
        forall|x: int, y: int|
            g.in_bounds(x, y) ==> cell_total(first, x, y) == cell_total(second, x, y),
    ensures
        forall|x: int, y: int|
            #[trigger] deposited(g, first).density_at(x, y) == deposited(g, second).density_at(
                x,
                y,
            ),
        forall|x: int, y: int|
            #[trigger] deposited(g, first).regime_at(x, y) == deposited(g, second).regime_at(x, y),
{
    lemma_deposited_config(g, first);
    lemma_deposited_config(g, second);
    assert forall|x: int, y: int|
        #[trigger] deposited(g, first).density_at(x, y) == deposited(g, second).density_at(
        x,
        y,
    ) by {
        if g.in_bounds(x, y) {
            lemma_history_density(g, first, x, y);
            lemma_history_density(g, second, x, y);
        }
    }
}

/// A 2D grid of trace density values.
///
/// Cells are plain integers under a single-writer, phase-separated
/// discipline: contributions and decay are sequenced by the tick protocol,
/// so no update is ever lost.
pub struct DensityGrid {
    width: usize,
    height: usize,
    cells: Vec<u32>,
    /// Decay rate per tick (fixed point, 1000 = 1.0).
    decay_rate: u32,
    /// Solid threshold (strictly above this = Solid regime).
    solid_threshold: u32,
    /// Liquid threshold (strictly above this = Liquid regime).
    liquid_threshold: u32,
}

impl View for DensityGrid {
    type V = GridView;

    closed spec fn view(&self) -> GridView {
        GridView {
            width: self.width as nat,
            height: self.height as nat,
            cells: self.cells@,
            decay_rate: self.decay_rate,
            solid_threshold: self.solid_threshold,
            liquid_threshold: self.liquid_threshold,
        }
    }
}

impl DensityGrid {
    /// Create a zero-initialized grid.
    ///
    /// `width * height` must fit in `usize`, or the allocation count itself
    /// could not be represented.
    pub fn new(
        width: usize,
        height: usize,
        decay_rate: u32,
        solid_threshold: u32,
        liquid_threshold: u32,
    ) -> (g: DensityGrid)
        requires
            width * height <= usize::MAX,
        ensures
            g@.wf(),
            g@.width == width,
            g@.height == height,
            g@.decay_rate == decay_rate,
            g@.solid_threshold == solid_threshold,
            g@.liquid_threshold == liquid_threshold,
            g@.cells == Seq::new((width * height) as nat, |i: int| 0u32),
    {
        let total: usize = width * height;
        let mut cells: Vec<u32> = Vec::new();
        let mut i: usize = 0;
        while i < total
            invariant
                i <= total,
                cells@.len() == i,
                forall|j: int| 0 <= j < i ==> cells@[j] == 0u32,
            decreases total - i,
        {
            cells.push(0);
            i = i + 1;
        }
        proof {
            assert(cells@ =~= Seq::new((width * height) as nat, |i: int| 0u32));
        }
        DensityGrid { width, height, cells, decay_rate, solid_threshold, liquid_threshold }
    }

    /// Contribute trace density at a position (side effect of presence).
    ///
    /// This is the only way trace accumulates, and it records no origin
    /// information. The add saturates at `u32::MAX`; out-of-range positions
    /// are a silent no-op.
    pub fn contribute(&mut self, x: usize, y: usize, amount: u32)
        requires
            old(self)@.wf(),
        ensures
            final(self)@ == old(self)@.contributed(x as int, y as int, amount),
            final(self)@.wf(),
    {
        if x < self.width && y < self.height {
            proof {
                vstd::std_specs::vec::axiom_spec_len(&self.cells);
                lemma_row_major_index(x as int, y as int, self.width as int, self.height as int);
            }
            let idx: usize = y * self.width + x;
            let current: u32 = self.cells[idx];
            self.cells[idx] = current.saturating_add(amount);
        }
    }

    /// Current density at a position; out-of-range positions read as 0.
    pub fn density(&self, x: usize, y: usize) -> (d: u32)
        requires
            self@.wf(),
        ensures
            d == self@.density_at(x as int, y as int),
    {
        match self.get_cell(x, y) {
            Some(cell) => *cell,
            None => 0,
        }
    }

    /// Regime at a position.
    pub fn regime(&self, x: usize, y: usize) -> (r: Regime)
        requires
            self@.wf(),
        ensures
            r == self@.regime_at(x as int, y as int),
    {
        let d: u32 = self.density(x, y);
        if d > self.solid_threshold {
            Regime::Solid
        } else if d > self.liquid_threshold {
            Regime::Liquid
        } else {
            Regime::Gas
        }
    }

    /// Whether a position is habitable: in range and not saturated past
    /// `threshold`. An out-of-range position is never habitable.
    pub fn is_habitable(&self, x: usize, y: usize, threshold: u32) -> (r: bool)
        requires
            self@.wf(),
        ensures
            r == (self@.in_bounds(x as int, y as int) && self@.density_at(x as int, y as int)
                < threshold),
    {
        if x < self.width && y < self.height {
            self.density(x, y) < threshold
        } else {
            false
        }
    }

    /// Apply global decay to the entire grid: every cell loses `decay_rate`,
    /// saturating at 0. Called once per tick.
    pub fn apply_decay(&mut self)
        requires
            old(self)@.wf(),
        ensures
            final(self)@ == old(self)@.decayed(),
            final(self)@.wf(),
    {
        let len: usize = self.cells.len();
        let mut i: usize = 0;
        while i < len
            invariant
                i <= len,
                self.cells@.len() == len,
                self.width == old(self).width,
                self.height == old(self).height,
                self.decay_rate == old(self).decay_rate,
                self.solid_threshold == old(self).solid_threshold,
                self.liquid_threshold == old(self).liquid_threshold,
                forall|j: int|
                    0 <= j < i ==> self.cells@[j] == sat_sub(
                        old(self).cells@[j],
                        old(self).decay_rate,
                    ),
                forall|j: int| i <= j < len ==> self.cells@[j] == old(self).cells@[j],
            decreases len - i,
        {
            let current: u32 = self.cells[i];
            self.cells[i] = current.saturating_sub(self.decay_rate);
            i = i + 1;
        }
        proof {
            assert(self.cells@ =~= old(self)@.decayed().cells);
        }
    }

    /// Grid dimensions, `(width, height)`.
    pub fn dimensions(&self) -> (d: (usize, usize))
        ensures
            d.0 as nat == self@.width,
            d.1 as nat == self@.height,
    {
        (self.width, self.height)
    }

    fn get_cell(&self, x: usize, y: usize) -> (c: Option<&u32>)
        requires
            self@.wf(),
        ensures
            match c {
                Some(cell) => self@.in_bounds(x as int, y as int) && *cell == self@.cells[self@.index_of(
                    x as int,
                    y as int,
                )],
                None => !self@.in_bounds(x as int, y as int),
            },
    {
        if x < self.width && y < self.height {
            proof {
                vstd::std_specs::vec::axiom_spec_len(&self.cells);
                lemma_row_major_index(x as int, y as int, self.width as int, self.height as int);
            }
            Some(&self.cells[y * self.width + x])
        } else {
            None
        }
    }
}

} // verus!
