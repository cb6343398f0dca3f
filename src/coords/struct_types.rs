//! Markers for the construction states of a star observation: which of its
//! inputs have been supplied, and whether it has been sealed for computing.

use vstd::prelude::*;

verus! {

/// No declination has been supplied yet.
#[derive(Default, Clone, Copy)]
pub struct NoDec;

/// No latitude has been supplied yet.
#[derive(Default, Clone, Copy)]
pub struct NoLat;

/// No local sidereal time has been supplied yet.
#[derive(Default, Clone, Copy)]
pub struct NoLst;

/// No right ascension has been supplied yet.
#[derive(Default, Clone, Copy)]
pub struct NoRA;

/// All inputs are in and no more can be set.
#[derive(Default, Clone, Copy)]
pub struct Sealed;

/// Inputs may still be set.
#[derive(Default, Clone, Copy)]
pub struct NotSealed;

} // verus!
