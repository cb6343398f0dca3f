//! Outcomes of the classical sunrise and sunset model.

use vstd::prelude::*;

verus! {

/// What the Sun does on a given day at a given place. The first two are the
/// days on which the hour-angle equation has no solution.
#[derive(Debug, Clone, Copy, PartialEq, Eq)]
pub enum SunMood {
    /// Polar night: the Sun stays below the horizon all day.
    NeverRise,
    /// Polar day: the Sun stays above the horizon all day.
    NeverSet,
    /// The Sun rises.
    Rise,
    /// The Sun sets.
    Setting,
}

} // verus!
