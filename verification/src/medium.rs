//! A constant-density participating medium bounded by a wrapped surface.

use vstd::prelude::*;
use crate::fx::{fx, sdiv, Fx, FX_SCALE};

verus! {

/// How far past the first boundary crossing the second probe starts.
pub const MEDIUM_STEP_FX: i64 = 7;

/// A constant-density medium: a boundary surface, the index of the isotropic
/// phase-function material, and `-1 / density`.
pub struct ConstantMedium {
    pub boundary: Box<crate::surface::Surface>,
    pub phase_function: usize,
    pub neg_inv_density: Fx,
}

impl ConstantMedium {
    /// Wrap a boundary with a density and a phase-function material.
    pub fn new(boundary: Box<crate::surface::Surface>, density: Fx, phase_function: usize) -> (r:
        ConstantMedium)
        ensures
            r.boundary == boundary,
            r.phase_function == phase_function,
            r.neg_inv_density == fx(sdiv(-(FX_SCALE as int), density@)),
    {
        let neg_inv_density = Fx { raw: FX_SCALE }.neg().div(density);
        ConstantMedium { boundary, phase_function, neg_inv_density }
    }
}

} // verus!
