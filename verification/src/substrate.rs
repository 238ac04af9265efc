//! Substrate: the tick-driven simulation runner.
//!
//! A substrate owns one space and the current set of live shapes, and drives
//! the four-phase tick protocol: contribution, lifetime aging, removal of the
//! dead, and field decay — in that order, every tick. Because contribution
//! happens before aging and removal, a shape with lifetime `L` contributes on
//! exactly its first `L` ticks and never again (ghost-trace prevention).

use vstd::prelude::*;

use crate::grid::lemma_row_major_index;
use crate::grid::sat_add;
use crate::grid::sat_sub;
use crate::grid::GridView;
use crate::shape::Shape;
use crate::space::Space;
use crate::space::SpaceView;

verus! {

/// The grid after one shape's deposit: a shape that can produce trace adds
/// its contribution at its position; any other shape leaves the grid alone.
pub open spec fn contribute_one(g: GridView, s: Shape) -> GridView {
    if s.spec_can_produce_trace() {
        g.contributed(s.pos.0 as int, s.pos.1 as int, s.contribution)
    } else {
        g
    }
}

/// The grid after every shape in the sequence has deposited, in order.
pub open spec fn contribute_all(g: GridView, shapes: Seq<Shape>) -> GridView
    decreases shapes.len(),
{
    if shapes.len() == 0 {
        g
    } else {
        contribute_one(contribute_all(g, shapes.drop_last()), shapes.last())
    }
}

/// Every shape one tick older: lifetime down by one, saturating at 0.
pub open spec fn aged_all(shapes: Seq<Shape>) -> Seq<Shape> {
    shapes.map_values(|s: Shape| s.aged())
}

/// The shapes that are still alive, in order.
pub open spec fn live_shapes(shapes: Seq<Shape>) -> Seq<Shape> {
    shapes.filter(|s: Shape| s.spec_is_alive())
}

/// Appending a shape to a sequence extends its live part by that shape
/// exactly when the shape is alive.
proof fn lemma_live_shapes_push(s: Seq<Shape>, x: Shape)
    ensures
        x.spec_is_alive() ==> live_shapes(s.push(x)) == live_shapes(s).push(x),
        !x.spec_is_alive() ==> live_shapes(s.push(x)) == live_shapes(s),
{
    reveal(Seq::filter);
    assert(s.push(x).drop_last() =~= s);
    assert(s.push(x).last() == x);
}

/// Purging the dead keeps identifiers unique and bounded: the live part of a
/// sequence of shapes with distinct identifiers below `bound` again has
/// distinct identifiers below `bound`, and every survivor comes from the
/// original sequence.
proof fn lemma_live_shapes_ids(s: Seq<Shape>, bound: u64)
    requires
        forall|i: int| 0 <= i < s.len() ==> (#[trigger] s[i]).id < bound,
        forall|i: int, j: int| 0 <= i < j < s.len() ==> s[i].id != s[j].id,
    ensures
        forall|i: int| 0 <= i < live_shapes(s).len() ==> (#[trigger] live_shapes(s)[i]).id
            < bound,
        forall|i: int, j: int|
            0 <= i < j < live_shapes(s).len() ==> live_shapes(s)[i].id != live_shapes(s)[j].id,
        forall|i: int| 0 <= i < live_shapes(s).len() ==> s.contains(#[trigger] live_shapes(s)[i]),
    decreases s.len(),
{
    reveal(Seq::filter);
    if s.len() == 0 {
        assert(live_shapes(s).len() == 0);
    } else {
        let d = s.drop_last();
        let x = s.last();
        lemma_live_shapes_ids(d, bound);
        assert(d.push(x) =~= s);
        lemma_live_shapes_push(d, x);
        let live = live_shapes(s);
        let live_d = live_shapes(d);
        assert forall|i: int| 0 <= i < live.len() implies s.contains(#[trigger] live[i]) by {
            if x.spec_is_alive() && i == live.len() - 1 {
                assert(live[i] == x);
                assert(s[s.len() - 1] == x);
            } else {
                assert(live[i] == live_d[i]);
                assert(d.contains(live_d[i]));
                let k = choose|k: int| 0 <= k < d.len() && d[k] == live_d[i];
                assert(s[k] == live[i]);
            }
        }
        assert forall|i: int, j: int| 0 <= i < j < live.len() implies live[i].id != live[j].id by {
            if x.spec_is_alive() && j == live.len() - 1 {
                assert(live[i] == live_d[i]);
                assert(d.contains(live_d[i]));
                let k = choose|k: int| 0 <= k < d.len() && d[k] == live_d[i];
                assert(s[k].id != s[s.len() - 1].id);
            } else {
                assert(live[i] == live_d[i] && live[j] == live_d[j]);
            }
        }
    }
}

/// Mathematical model of a substrate.
pub struct SubstrateView {
    pub space: SpaceView,
    pub shapes: Seq<Shape>,
    pub tick_count: u64,
    pub next_id: u64,
}

impl SubstrateView {
    /// The space is well formed, and shape identifiers are unique and all
    /// below the next identifier to be handed out — so no identifier is ever
    /// reused.
    pub open spec fn wf(self) -> bool {
        &&& self.space.wf()
        &&& forall|i: int| 0 <= i < self.shapes.len() ==> (#[trigger] self.shapes[i]).id < self.next_id
        &&& forall|i: int, j: int|
            0 <= i < j < self.shapes.len() ==> self.shapes[i].id != self.shapes[j].id
    }

    /// One tick of the simulation, as a pure transition: the four phases in
    /// order. The grid takes every live shape's deposit and then decays once;
    /// the shapes age by one tick and the dead are purged.
    pub open spec fn ticked(self) -> SubstrateView {
        SubstrateView {
            space: SpaceView {
                grid: contribute_all(self.space.grid, self.shapes).decayed(),
                threshold: self.space.threshold,
            },
            shapes: live_shapes(aged_all(self.shapes)),
            tick_count: (self.tick_count + 1) as u64,
            next_id: self.next_id,
        }
    }

    /// The substrate after `n` ticks.
    pub open spec fn ticked_n(self, n: nat) -> SubstrateView
        decreases n,
    {
        if n == 0 {
            self
        } else {
            self.ticked_n((n - 1) as nat).ticked()
        }
    }
}

/// Ghost-trace prevention: with decay switched off, so that the field
/// records deposits alone, a lone trace-capable shape with lifetime `L`
/// deposits on exactly its first `L` ticks. After `n` ticks its cell holds
/// `min(n, L)` deposits; once the lifetime is spent the shape is gone, and
/// the density never moves again — the shape contributes zero on tick
/// `L + 1` and beyond, regardless of purge timing.
pub proof fn lemma_ghost_trace_prevention(v: SubstrateView, s: Shape, n: nat)
    requires
        v.wf(),
        v.shapes == seq![s],
        s.spec_can_produce_trace(),
        v.space.grid.in_bounds(s.pos.0 as int, s.pos.1 as int),
        v.space.grid.decay_rate == 0,
        v.space.grid.density_at(s.pos.0 as int, s.pos.1 as int) + s.lifetime * s.contribution
            <= u32::MAX,
    ensures
        v.ticked_n(n).space.grid.wf(),
        v.ticked_n(n).space.grid.width == v.space.grid.width,
        v.ticked_n(n).space.grid.height == v.space.grid.height,
        v.ticked_n(n).space.grid.decay_rate == 0,
        v.ticked_n(n).space.grid.density_at(s.pos.0 as int, s.pos.1 as int) == v.space.grid.density_at(
            s.pos.0 as int,
            s.pos.1 as int,
        ) + (if n <= s.lifetime {
            n
        } else {
            s.lifetime as nat
        }) * s.contribution,
        n < s.lifetime ==> v.ticked_n(n).shapes == seq![
            Shape { lifetime: (s.lifetime - n) as u32, ..s },
        ],
        n >= s.lifetime ==> v.ticked_n(n).shapes == Seq::<Shape>::empty(),
    decreases n,
{
    reveal(Seq::filter);
    let x = s.pos.0 as int;
    let y = s.pos.1 as int;
    if n == 0 {
        assert(n * s.contribution == 0) by (nonlinear_arith)
            requires
                n == 0,
        ;
    } else {
        let m = (n - 1) as nat;
        lemma_ghost_trace_prevention(v, s, m);
        let w = v.ticked_n(m);
        lemma_row_major_index(x, y, w.space.grid.width as int, w.space.grid.height as int);
        assert(live_shapes(Seq::<Shape>::empty()) =~= Seq::<Shape>::empty());
        if m < s.lifetime {
            assert(n <= s.lifetime);
            assert(m * s.contribution <= s.lifetime * s.contribution && n * s.contribution
                <= s.lifetime * s.contribution && m * s.contribution + s.contribution == n
                * s.contribution) by (nonlinear_arith)
                requires
                    m + 1 == n,
                    n <= s.lifetime,
            ;
            assert((s.lifetime as nat) * s.contribution == s.lifetime * s.contribution);
            let sm = Shape { lifetime: (s.lifetime - m) as u32, ..s };
            assert(w.shapes == seq![sm]);
            assert(w.shapes.drop_last() =~= Seq::<Shape>::empty());
            assert(contribute_all(w.space.grid, w.shapes.drop_last()) == w.space.grid);
            assert(w.shapes.last() == sm);
            assert(contribute_all(w.space.grid, w.shapes) == contribute_one(w.space.grid, sm));
            let g1 = w.space.grid.contributed(x, y, s.contribution);
            assert(contribute_one(w.space.grid, sm) == g1);
            assert(g1.density_at(x, y) == sat_add(
                w.space.grid.density_at(x, y),
                s.contribution,
            ));
            // Decay at rate 0 leaves every cell where it is.
            let g2 = g1.decayed();
            assert(g2.density_at(x, y) == sat_sub(g1.density_at(x, y), 0));
            // Aging the lone shape, then purging, keeps it exactly when
            // lifetime remains.
            let sa = sm.aged();
            assert(aged_all(w.shapes) =~= seq![sa]);
            assert(seq![sa] =~= Seq::<Shape>::empty().push(sa));
            lemma_live_shapes_push(Seq::<Shape>::empty(), sa);
            if n < s.lifetime {
                assert(sa.spec_is_alive());
                assert(live_shapes(seq![sa]) == Seq::<Shape>::empty().push(sa));
                assert(live_shapes(seq![sa]) =~= seq![sa]);
                assert(sa == (Shape { lifetime: (s.lifetime - n) as u32, ..s }));
            } else {
                assert(!sa.spec_is_alive());
                assert(live_shapes(seq![sa]) == live_shapes(Seq::<Shape>::empty()));
            }
        } else {
            assert((if m <= s.lifetime {
                m
            } else {
                s.lifetime as nat
            }) * s.contribution == (if n <= s.lifetime {
                n
            } else {
                s.lifetime as nat
            }) * s.contribution);
            assert(w.shapes.len() == 0);
            assert(contribute_all(w.space.grid, w.shapes) == w.space.grid);
            let g2 = w.space.grid.decayed();
            assert(g2.density_at(x, y) == sat_sub(w.space.grid.density_at(x, y), 0));
            assert(aged_all(w.shapes) =~= Seq::<Shape>::empty());
            assert(live_shapes(aged_all(w.shapes)) == live_shapes(Seq::<Shape>::empty()));
        }
    }
}

/// Death is permanent and purge timing exact, whatever the field does: a
/// lone live shape with lifetime `L` survives `n` ticks exactly while
/// `n < L`, aged to lifetime `L - n`, and from the end of its `L`th tick on
/// it is gone for good — under any decay rate, any thresholds and any
/// density, with or without a payload.
pub proof fn lemma_lifetime_trajectory(v: SubstrateView, s: Shape, n: nat)
    requires
        v.shapes == seq![s],
        s.spec_is_alive(),
    ensures
        n < s.lifetime ==> v.ticked_n(n).shapes == seq![
            Shape { lifetime: (s.lifetime - n) as u32, ..s },
        ],
        n >= s.lifetime ==> v.ticked_n(n).shapes == Seq::<Shape>::empty(),
    decreases n,
{
    reveal(Seq::filter);
    if n > 0 {
        let m = (n - 1) as nat;
        lemma_lifetime_trajectory(v, s, m);
        let w = v.ticked_n(m);
        assert(live_shapes(Seq::<Shape>::empty()) =~= Seq::<Shape>::empty());
        if m < s.lifetime {
            let sm = Shape { lifetime: (s.lifetime - m) as u32, ..s };
            assert(w.shapes == seq![sm]);
            let sa = sm.aged();
            assert(aged_all(w.shapes) =~= seq![sa]);
            assert(seq![sa] =~= Seq::<Shape>::empty().push(sa));
            lemma_live_shapes_push(Seq::<Shape>::empty(), sa);
            if n < s.lifetime {
                assert(sa.spec_is_alive());
                assert(live_shapes(seq![sa]) == Seq::<Shape>::empty().push(sa));
                assert(live_shapes(seq![sa]) =~= seq![sa]);
                assert(sa == (Shape { lifetime: (s.lifetime - n) as u32, ..s }));
            } else {
                assert(!sa.spec_is_alive());
                assert(live_shapes(seq![sa]) == live_shapes(Seq::<Shape>::empty()));
            }
        } else {
            assert(w.shapes.len() == 0);
            assert(aged_all(w.shapes) =~= Seq::<Shape>::empty());
            assert(live_shapes(aged_all(w.shapes)) == live_shapes(Seq::<Shape>::empty()));
        }
    }
}

/// The substrate: one space plus the shapes that currently inhabit it.
pub struct Substrate {
    /// The topographic space.
    space: Space,
    /// All live shapes, in spawn order.
    shapes: Vec<Shape>,
    /// Ticks run so far.
    tick_count: u64,
    /// Next shape identifier; monotonic, never reused.
    next_id: u64,
}

impl View for Substrate {
    type V = SubstrateView;

    closed spec fn view(&self) -> SubstrateView {
        SubstrateView {
            space: self.space@,
            shapes: self.shapes@,
            tick_count: self.tick_count,
            next_id: self.next_id,
        }
    }
}

/// Default memory budget handed to every spawned shape.
pub const DEFAULT_BUDGET: u32 = 100;

/// Default sensitivity handed to every spawned shape: fixed point 1.0.
pub const DEFAULT_SENSITIVITY: u32 = 1000;

impl Substrate {
    /// Create an empty substrate: a zero-initialized space, no shapes,
    /// tick counter 0, identifiers starting at 1.
    pub fn new(width: usize, height: usize, decay_rate: u32, threshold: u32) -> (s: Substrate)
        requires
            width * height <= usize::MAX,
        ensures
            s@.wf(),
            s@.space.threshold == threshold,
            s@.space.grid.width == width,
            s@.space.grid.height == height,
            s@.space.grid.decay_rate == decay_rate,
            s@.space.grid.cells == Seq::new((width * height) as nat, |i: int| 0u32),
            s@.shapes == Seq::<Shape>::empty(),
            s@.tick_count == 0,
            s@.next_id == 1,
    {
        Substrate {
            space: Space::new(width, height, decay_rate, threshold),
            shapes: Vec::new(),
            tick_count: 0,
            next_id: 1,
        }
    }

    /// Spawn a new shape at a position.
    ///
    /// Returns the shape's identifier, or `None` — exactly when the target
    /// cell is not currently habitable: out of range, or with density at or
    /// past the habitability threshold. So a shape's position is bounded to
    /// the field's dimensions at spawn time (and not re-validated
    /// afterward). On success the
    /// shape gets the next monotonic identifier, the default budget and
    /// sensitivity, and its payload pre-attached, so it is immediately
    /// trace-capable. A failed spawn changes nothing.
    pub fn spawn(&mut self, x: usize, y: usize, lifetime: u32, contribution: u32) -> (id: Option<
        u64,
    >)
        requires
            old(self)@.wf(),
            old(self)@.next_id < u64::MAX,
        ensures
            final(self)@.wf(),
            (id is Some) <==> old(self)@.space.habitable_at(x as int, y as int),
            id is None ==> final(self)@ == old(self)@,
            id is Some ==> id == Some(old(self)@.next_id) && final(self)@ == (SubstrateView {
                shapes: old(self)@.shapes.push(
                    Shape {
                        id: old(self)@.next_id,
                        pos: (x, y),
                        budget: DEFAULT_BUDGET,
                        lifetime,
                        sensitivity: DEFAULT_SENSITIVITY,
                        contribution,
                        has_payload: true,
                    },
                ),
                next_id: (old(self)@.next_id + 1) as u64,
                ..old(self)@
            }),
    {
        if !self.space.is_habitable(x, y) {
            return None;
        }

        let id: u64 = self.next_id;
        self.next_id = self.next_id + 1;

        let mut shape = Shape::new(id, x, y, DEFAULT_BUDGET, lifetime, DEFAULT_SENSITIVITY, contribution);
        shape.attach_payload();

        self.shapes.push(shape);
        Some(id)
    }

    /// Run one tick of the simulation: four ordered phases.
    ///
    /// 1. Contribution: every shape that can produce trace deposits its
    ///    contribution at its position; who contributes is fixed at phase
    ///    start.
    /// 2. Lifetime aging: every shape loses one tick of lifetime.
    /// 3. Removal: shapes no longer alive are purged permanently; their
    ///    identifiers are never reused.
    /// 4. Field decay: the decay projection runs exactly once over the grid.
    ///
    /// Because contribution precedes aging and removal, a shape spawned with
    /// lifetime `L` contributes on exactly its first `L` ticks — no ghost
    /// trace from the dead.
    pub fn tick(&mut self)
        requires
            old(self)@.wf(),
            old(self)@.tick_count < u64::MAX,
        ensures
            final(self)@ == old(self)@.ticked(),
            final(self)@.wf(),
    {
        self.tick_count = self.tick_count + 1;

        let ghost shapes0: Seq<Shape> = self.shapes@;
        let ghost grid0: GridView = self.space@.grid;

        // Phase 1: contribution.
        let n: usize = self.shapes.len();
        let mut i: usize = 0;
        while i < n
            invariant
                i <= n,
                n == shapes0.len(),
                self.shapes@ == shapes0,
                self.space@.grid == contribute_all(grid0, shapes0.take(i as int)),
                self.space@.threshold == old(self)@.space.threshold,
                self.space@.wf(),
                self.tick_count == old(self).tick_count + 1,
                self.next_id == old(self).next_id,
            decreases n - i,
        {
            let s = &self.shapes[i];
            if s.can_produce_trace() {
                let (x, y) = s.pos;
                let amount: u32 = s.contribution;
                self.space.contribute(x, y, amount);
            }
            proof {
                assert(shapes0.take(i + 1).drop_last() =~= shapes0.take(i as int));
                assert(shapes0.take(i + 1).last() == shapes0[i as int]);
            }
            i = i + 1;
        }
        proof {
            assert(shapes0.take(n as int) =~= shapes0);
        }

        // Phase 2: lifetime aging.
        let mut i: usize = 0;
        while i < n
            invariant
                i <= n,
                n == shapes0.len(),
                self.shapes@.len() == n,
                forall|j: int| 0 <= j < i ==> self.shapes@[j] == shapes0[j].aged(),
                forall|j: int| i <= j < n ==> self.shapes@[j] == shapes0[j],
                self.space@.grid == contribute_all(grid0, shapes0),
                self.space@.threshold == old(self)@.space.threshold,
                self.space@.wf(),
                self.tick_count == old(self).tick_count + 1,
                self.next_id == old(self).next_id,
            decreases n - i,
        {
            let mut s: Shape = self.shapes[i];
            s.tick();
            self.shapes[i] = s;
            i = i + 1;
        }
        proof {
            assert(self.shapes@ =~= aged_all(shapes0));
        }

        // Phase 3: remove the dead.
        let ghost shapes1: Seq<Shape> = self.shapes@;
        let mut live: Vec<Shape> = Vec::new();
        let mut i: usize = 0;
        while i < n
            invariant
                i <= n,
                n == shapes1.len(),
                self.shapes@ == shapes1,
                live@ == live_shapes(shapes1.take(i as int)),
                self.space@.grid == contribute_all(grid0, shapes0),
                self.space@.threshold == old(self)@.space.threshold,
                self.space@.wf(),
                self.tick_count == old(self).tick_count + 1,
                self.next_id == old(self).next_id,
            decreases n - i,
        {
            let s: Shape = self.shapes[i];
            if s.is_alive() {
                live.push(s);
            }
            proof {
                assert(shapes1.take(i + 1) =~= shapes1.take(i as int).push(shapes1[i as int]));
                lemma_live_shapes_push(shapes1.take(i as int), shapes1[i as int]);
            }
            i = i + 1;
        }
        proof {
            assert(shapes1.take(n as int) =~= shapes1);
        }
        self.shapes = live;

        // Phase 4: field decay.
        self.space.tick();

        proof {
            let aged = aged_all(shapes0);
            assert(aged.len() == shapes0.len());
            assert forall|j: int| 0 <= j < aged.len() implies (#[trigger] aged[j]).id < old(
                self,
            ).next_id by {
                assert(aged[j] == shapes0[j].aged());
                assert(old(self)@.shapes[j].id < old(self)@.next_id);
            }
            assert forall|j: int, k: int| 0 <= j < k < aged.len() implies aged[j].id != aged[k].id by {
                assert(aged[j] == shapes0[j].aged());
                assert(aged[k] == shapes0[k].aged());
                assert(old(self)@.shapes[j].id != old(self)@.shapes[k].id);
            }
            lemma_live_shapes_ids(aged, old(self).next_id);
        }
    }

    /// Run `ticks` ticks, sequentially; no partial-tick state is exposed.
    pub fn run(&mut self, ticks: u64)
        requires
            old(self)@.wf(),
            old(self)@.tick_count + ticks <= u64::MAX,
        ensures
            final(self)@ == old(self)@.ticked_n(ticks as nat),
            final(self)@.wf(),
    {
        let mut k: u64 = 0;
        while k < ticks
            invariant
                k <= ticks,
                self@ == old(self)@.ticked_n(k as nat),
                self@.wf(),
                self@.tick_count == old(self)@.tick_count + k,
                old(self)@.tick_count + ticks <= u64::MAX,
            decreases ticks - k,
        {
            self.tick();
            k = k + 1;
        }
    }

    /// Ticks run so far.
    pub fn tick_count(&self) -> (n: u64)
        ensures
            n == self@.tick_count,
    {
        self.tick_count
    }

    /// Number of shapes currently alive in the substrate.
    pub fn shape_count(&self) -> (n: usize)
        ensures
            n == self@.shapes.len(),
    {
        self.shapes.len()
    }

    /// A row-major snapshot of the field: `width * height` density values,
    /// y outer, x inner — exactly the grid's cell sequence, sufficient for
    /// an external consumer such as a renderer.
    pub fn density_map(&self) -> (map: Vec<u32>)
        requires
            self@.wf(),
        ensures
            map@ == self@.space.grid.cells,
            map@.len() == self@.space.grid.width * self@.space.grid.height,
            forall|x: int, y: int|
                self@.space.grid.in_bounds(x, y) ==> map@[y * self@.space.grid.width + x]
                    == self@.space.grid.density_at(x, y),
    {
        let ghost cells: Seq<u32> = self@.space.grid.cells;
        let (w, h) = self.space.dimensions();
        let mut map: Vec<u32> = Vec::new();
        let mut y: usize = 0;
        while y < h
            invariant
                y <= h,
                w as nat == self@.space.grid.width,
                h as nat == self@.space.grid.height,
                self@.wf(),
                cells == self@.space.grid.cells,
                map@ == cells.take(y * w),
            decreases h - y,
        {
            let mut x: usize = 0;
            while x < w
                invariant
                    x <= w,
                    y < h,
                    w as nat == self@.space.grid.width,
                    h as nat == self@.space.grid.height,
                    self@.wf(),
                    cells == self@.space.grid.cells,
                    map@ == cells.take(y * w + x),
                decreases w - x,
            {
                proof {
                    lemma_row_major_index(x as int, y as int, w as int, h as int);
                    assert(cells.take(y * w + x + 1) =~= cells.take(y * w + x).push(
                        cells[y * w + x],
                    ));
                }
                let d: u32 = self.space.density(x, y);
                map.push(d);
                x = x + 1;
            }
            proof {
                assert((y + 1) * w == y * w + w) by (nonlinear_arith);
            }
            y = y + 1;
        }
        proof {
            assert(h * w == w * h) by (nonlinear_arith);
            assert(map@ =~= cells);
        }
        assert forall|x: int, y: int|
            self@.space.grid.in_bounds(x, y) implies map@[y * self@.space.grid.width + x]
            == self@.space.grid.density_at(x, y) by {
            lemma_row_major_index(x, y, w as int, h as int);
        }
        map
    }

    /// Read-only access to the space.
    pub fn space(&self) -> (s: &Space)
        ensures
            s@ == self@.space,
    {
        &self.space
    }
}

} // verus!
