//! The verified core of a small sphere ray tracer.
//!
//! The kernel's `f32` vector arithmetic lives outside the verified library;
//! what is verified here is everything the renderer does with plain values:
//! the decision policies of the kernel — root selection, closest-hit
//! selection, shadow occlusion — stated over order keys (`policy`), and the
//! image encoder that the render loop feeds, with a proved-exact plain-text
//! serialization (`img`).

pub mod img;
pub mod policy;
