//! Light classification.
//!
//! A light record carries a floating-point position, color, strength and
//! attenuation curve and therefore lives with the host program; the kind
//! tag below decides whether a light casts shadow rays (point lights do,
//! ambient light does not).

use vstd::prelude::*;

verus! {

/// The two light variants the shading evaluator distinguishes.
#[derive(Clone, Copy, Debug, PartialEq, Eq, Structural)]
pub enum LightType {
    Point,
    Ambient,
}

} // verus!
