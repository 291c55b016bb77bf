//! Per-cell state: four 8-bit color channels, and the choice of which channel
//! counts as "activity" when deciding liveness.

use vstd::prelude::*;

verus! {

/// Selects which of the four channels is read when counting live neighbors
/// and deciding whether the center cell is currently active.
#[derive(Clone, Copy, Debug, PartialEq, Eq, Structural)]
pub enum LifeChannel {
    Hue,
    Saturation,
    Luminance,
    Alpha,
}

/// One cell of the grid: hue, saturation, luminance and an "alpha"/life value.
/// A cell is alive exactly when its alpha is nonzero.
#[derive(Clone, Copy, Debug, PartialEq, Eq, Structural)]
pub struct Individual {
    pub hue: u8,
    pub saturation: u8,
    pub luminance: u8,
    pub alpha: u8,
}

/// The zeroed cell: black, transparent, dead.
pub open spec fn empty_cell() -> Individual {
    Individual { hue: 0, saturation: 0, luminance: 0, alpha: 0 }
}

/// The channel value that `channel` selects from `c`.
pub open spec fn spec_activity_value(c: Individual, channel: LifeChannel) -> u8 {
    match channel {
        LifeChannel::Hue => c.hue,
        LifeChannel::Saturation => c.saturation,
        LifeChannel::Luminance => c.luminance,
        LifeChannel::Alpha => c.alpha,
    }
}

impl Individual {
    /// Reads the channel that `channel` selects.
    pub fn activity_value(&self, channel: LifeChannel) -> (r: u8)
        ensures
            r == spec_activity_value(*self, channel),
    {
        match channel {
            LifeChannel::Hue => self.hue,
            LifeChannel::Saturation => self.saturation,
            LifeChannel::Luminance => self.luminance,
            LifeChannel::Alpha => self.alpha,
        }
    }
}

impl Default for Individual {
    /// The zeroed cell.
    fn default() -> (r: Self)
        ensures
            r == empty_cell(),
    {
        Individual { hue: 0, saturation: 0, luminance: 0, alpha: 0 }
    }
}

} // verus!
