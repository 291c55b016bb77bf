//! Tunable parameters of the life cycle.
//!
//! The generalized rule is an 18-bit birth/survival mask: bits 0-8 are the
//! birth conditions B0..B8 (center currently inactive, indexed by the live
//! neighbor count) and bits 9-17 are the survival conditions S0..S8 (center
//! currently active). Classic Conway B3/S23 is `0x0408`.
//!
//! The fractional multipliers are fixed-point values in thousandths: a field
//! holding `800` stands for a factor of 0.8.

use vstd::prelude::*;
use crate::cell::LifeChannel;

verus! {

/// Parameters controlling how cells gain or lose brightness. They can be
/// changed while the simulation is running.
///
/// All `*_factor` fields and `hue_drift_strength` are in thousandths.
/// `hue_drift_strength` scales a radian-valued perturbation of newborn hues.
#[derive(Clone, Copy, Debug)]
pub struct LifeParams {
    /// 18-bit birth/survival mask; only the low 18 bits are meaningful.
    pub rule: u32,
    /// Magnitude of the per-tick channel decay for dying cells.
    pub decay_step: u8,
    /// Magnitude of the per-tick saturation recovery for surviving cells.
    pub recovery_step: u8,
    /// Saturation recovery multiplier, thousandths.
    pub sat_recovery_factor: u32,
    /// Saturation decay multiplier on death, thousandths.
    pub sat_decay_factor: u32,
    /// Luminance decay multiplier, thousandths.
    pub lum_decay_factor: u32,
    /// Alpha ("life") decay multiplier, thousandths.
    pub life_decay_factor: u32,
    /// Saturation fade multiplier for cells that stay dead, thousandths.
    pub sat_ghost_factor: u32,
    /// Scale of the random perturbation of a newborn cell's hue, thousandths
    /// of a radian.
    pub hue_drift_strength: u32,
    /// Blend weight between the circular-mean hue and the strongest
    /// neighbor's hue at birth, thousandths.
    pub hue_lerp_factor: u32,
    /// Which channel counts as "activity" for neighbor counting and liveness.
    pub life_channel: LifeChannel,
}

/// The default parameter set: Conway-like rule 770 with gentle decay.
pub open spec fn default_params() -> LifeParams {
    LifeParams {
        rule: 770,
        decay_step: 1,
        recovery_step: 60,
        sat_recovery_factor: 800,
        sat_decay_factor: 600,
        lum_decay_factor: 950,
        life_decay_factor: 950,
        sat_ghost_factor: 900,
        hue_drift_strength: 10,
        hue_lerp_factor: 100,
        life_channel: LifeChannel::Alpha,
    }
}

impl LifeParams {
    /// Bundles the given settings into a parameter record.
    pub fn new(
        rule: u32,
        decay_step: u8,
        recovery_step: u8,
        sat_recovery_factor: u32,
        sat_decay_factor: u32,
        lum_decay_factor: u32,
        life_decay_factor: u32,
        sat_ghost_factor: u32,
        hue_drift_strength: u32,
        hue_lerp_factor: u32,
        life_channel: LifeChannel,
    ) -> (r: Self)
        ensures
            r == (LifeParams {
                rule,
                decay_step,
                recovery_step,
                sat_recovery_factor,
                sat_decay_factor,
                lum_decay_factor,
                life_decay_factor,
                sat_ghost_factor,
                hue_drift_strength,
                hue_lerp_factor,
                life_channel,
            }),
    {
        LifeParams {
            rule,
            decay_step,
            recovery_step,
            sat_recovery_factor,
            sat_decay_factor,
            lum_decay_factor,
            life_decay_factor,
            sat_ghost_factor,
            hue_drift_strength,
            hue_lerp_factor,
            life_channel,
        }
    }
}

impl Default for LifeParams {
    /// The default parameter set.
    fn default() -> (r: Self)
        ensures
            r == default_params(),
    {
        LifeParams::new(770, 1, 60, 800, 600, 950, 950, 900, 10, 100, LifeChannel::Alpha)
    }
}

} // verus!
