//! The decision core of a recursive ray tracer.
//!
//! Geometry and colour arithmetic happen on floating-point values outside this
//! library. What is decided here works on plain values: which object a ray
//! meets first, whether a light reaches a surface point, how deep mirror
//! reflections may nest, and how a finished RGB buffer is framed as PNG.
//!
//! A distance along a ray enters as a `u64` key. The caller derives the key from
//! a non-negative distance so that keys order exactly as distances do (the bit
//! pattern of a non-negative IEEE-754 double has that property).

pub mod scene;
pub mod image;
