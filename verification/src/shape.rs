//! Shape: the bounded carrier that inhabits the topographic space.
//!
//! Shapes do not act; they only exist. A shape carries a position, a resource
//! budget, a remaining lifetime, a payload gate, and a contribution rate.
//! Lifetime is strictly non-increasing and death is permanent.

use vstd::prelude::*;

verus! {

/// A bounded carrier.
///
/// `sensitivity` is a reserved multiplier, stored as fixed point
/// (1000 units = 1.0); no core computation consults it.
/// `budget` is set once at spawn and only read; the core never decrements it.
#[derive(Debug, Clone, Copy)]
pub struct Shape {
    /// Unique identifier; assigned monotonically, never reused.
    pub id: u64,
    /// Position in space, `(x, y)`.
    pub pos: (usize, usize),
    /// Memory budget (abstract, not enforced by the core).
    pub budget: u32,
    /// Remaining lifetime in ticks; saturates at 0.
    pub lifetime: u32,
    /// Sensitivity to space density, fixed point (1000 = 1.0); reserved.
    pub sensitivity: u32,
    /// Amount of trace added per tick while eligible.
    pub contribution: u32,
    /// Whether the shape carries a payload, gating trace eligibility.
    pub has_payload: bool,
}

impl Shape {
    /// A shape inhabits the space while it has both budget and lifetime.
    pub open spec fn spec_is_alive(self) -> bool {
        self.budget > 0 && self.lifetime > 0
    }

    /// A shape deposits trace only while alive and carrying a payload.
    pub open spec fn spec_can_produce_trace(self) -> bool {
        self.spec_is_alive() && self.has_payload
    }

    /// The shape after one tick of lifetime is spent (saturating at 0).
    pub open spec fn aged(self) -> Shape {
        Shape {
            lifetime: if self.lifetime > 0 { (self.lifetime - 1) as u32 } else { 0 },
            ..self
        }
    }

    /// Create a new shape; the payload starts detached.
    pub fn new(
        id: u64,
        x: usize,
        y: usize,
        budget: u32,
        lifetime: u32,
        sensitivity: u32,
        contribution: u32,
    ) -> (s: Shape)
        ensures
            s == (Shape {
                id,
                pos: (x, y),
                budget,
                lifetime,
                sensitivity,
                contribution,
                has_payload: false,
            }),
    {
        Shape { id, pos: (x, y), budget, lifetime, sensitivity, contribution, has_payload: false }
    }

    /// Attach the payload, making the shape trace-eligible while alive.
    /// Idempotent; no other field changes.
    pub fn attach_payload(&mut self)
        ensures
            *final(self) == (Shape { has_payload: true, ..*old(self) }),
    {
        self.has_payload = true;
    }

    /// Detach the payload, ending trace eligibility.
    /// Idempotent; no other field changes.
    pub fn detach_payload(&mut self)
        ensures
            *final(self) == (Shape { has_payload: false, ..*old(self) }),
    {
        self.has_payload = false;
    }

    /// Spend one tick of lifetime (saturating at 0) and report whether the
    /// shape is still alive afterwards.
    pub fn tick(&mut self) -> (alive: bool)
        ensures
            *final(self) == old(self).aged(),
            alive == final(self).spec_is_alive(),
    {
        if self.lifetime > 0 {
            self.lifetime = self.lifetime - 1;
        }
        self.is_alive()
    }

    /// Whether the shape still inhabits the space.
    pub fn is_alive(&self) -> (r: bool)
        ensures
            r == self.spec_is_alive(),
    {
        self.budget > 0 && self.lifetime > 0
    }

    /// Whether the shape deposits trace this tick.
    pub fn can_produce_trace(&self) -> (r: bool)
        ensures
            r == self.spec_can_produce_trace(),
    {
        self.is_alive() && self.has_payload
    }
}

} // verus!
