//! Topographic execution substrate: a passive spatial coordination medium.
//!
//! A shared scalar field accumulates trace deposited by short-lived, bounded
//! carriers, decays over time, and gates where new carriers may appear based
//! on local saturation. Trace is a side effect, not state: the field keeps no
//! origin information (source amnesia), and decay is the only way density
//! falls. There is no rollback and no replay.

mod grid;
mod shape;
mod space;
mod substrate;

pub use crate::grid::cell_total;
pub use crate::grid::contributed_seq;
pub use crate::grid::deposited;
pub use crate::grid::lemma_density_is_sum;
pub use crate::grid::lemma_history_density;
pub use crate::grid::lemma_source_amnesia_any_history;
pub use crate::grid::lemma_deposits_then_decay;
pub use crate::grid::lemma_regime_pure;
pub use crate::grid::lemma_repeated_decay;
pub use crate::grid::lemma_row_major_index;
pub use crate::grid::lemma_source_amnesia;
pub use crate::grid::regime_of;
pub use crate::grid::sat_add;
pub use crate::grid::sat_sub;
pub use crate::grid::sum_amounts;
pub use crate::grid::DensityGrid;
pub use crate::grid::GridView;
pub use crate::grid::Regime;
pub use crate::shape::Shape;
pub use crate::space::Space;
pub use crate::space::SpaceView;
pub use crate::substrate::aged_all;
pub use crate::substrate::contribute_all;
pub use crate::substrate::contribute_one;
pub use crate::substrate::lemma_ghost_trace_prevention;
pub use crate::substrate::lemma_lifetime_trajectory;
pub use crate::substrate::live_shapes;
pub use crate::substrate::Substrate;
pub use crate::substrate::SubstrateView;
pub use crate::substrate::DEFAULT_BUDGET;
pub use crate::substrate::DEFAULT_SENSITIVITY;
