//! Cellular radio technologies, load levels and shaper rate variation patterns.

use vstd::prelude::*;

verus! {

/// Radio access technology of a cellular profile.
#[derive(Clone, Copy, Debug, PartialEq, Eq, Structural)]
pub enum RadioAccessTechnology {
    Lte,
    Nr5g,
}

/// Cell load of a cellular profile.
#[derive(Clone, Copy, Debug, PartialEq, Eq, Structural)]
pub enum LoadProfile {
    Light,
    Heavy,
}

/// Rate variation pattern applied to a shaper.
#[derive(Clone, Copy, Debug, PartialEq, Eq, Structural)]
pub enum RateVariation {
    /// Random walk around a target with bounds and a step clamp.
    RandomWalk { target_kbit: u32, spread_kbit: u32, step_kbit: u32, period_ms: u64 },
    /// Sinusoidal variation around a target.
    Sinusoid { target_kbit: u32, amp_kbit: u32, period_secs: u64 },
}

} // verus!
