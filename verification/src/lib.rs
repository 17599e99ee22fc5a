//! Core of an offline CPU ray tracer.
//!
//! The renderer turns a scene of analytic primitives into an 8-bit RGB
//! raster.  This crate holds the discrete heart of that pipeline — the
//! framebuffer grid, the pixel coordinate conventions, the work split
//! across render workers, the adaptive anti-aliasing mark pass and the
//! scene bookkeeping — each with a verified contract.  The floating-point
//! shading, intersection and linear-algebra kernels that feed these
//! structures live with the host program: their values pass through the
//! grid and the dispatcher as opaque payloads.

pub mod buffer;
pub mod camera;
pub mod dispatch;
pub mod light;
pub mod material;
pub mod sampler;
pub mod scene;
pub mod trace;
