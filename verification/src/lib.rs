//! Simulation engine for a generative-art cellular automaton: a toroidal grid
//! of colored cells evolves under a generalized Life-like birth/survival rule
//! with per-channel color dynamics, while callers paint onto the grid with
//! brush strokes and stamped images.
//!
//! All channel arithmetic is carried out over fixed-point integers: fractional
//! parameters are given in thousandths, and angles (for the circular hue mean)
//! in 1/65536ths of a turn.

pub mod angle;
pub mod brush;
pub mod cell;
pub mod fixed;
pub mod hsl;
pub mod params;
mod rng;
pub mod stamp;
pub mod state;
pub mod stats;
pub mod tick;
pub mod universe;

pub use cell::{Individual, LifeChannel};
pub use params::LifeParams;
pub use stats::{median_from_histogram, UniverseStats};
pub use universe::{BrushState, Universe};
