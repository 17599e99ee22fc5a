//! Material classification.
//!
//! A material record carries floating-point shading parameters (base
//! color, specular amount, roughness, …) and therefore lives with the
//! host program; the kind tag below is what the shading evaluator
//! dispatches on.

use vstd::prelude::*;

verus! {

/// How a surface is shaded: direct Phong lighting, a perfect mirror
/// bounce, a dielectric refraction bounce, or the Cook–Torrance
/// microfacet model.
#[derive(Clone, Copy, Debug, PartialEq, Eq, Structural)]
pub enum MaterialType {
    Phong,
    Reflective,
    Refractive,
    PBR,
}

} // verus!
