//! Integer core of a single-sphere ray caster: channel clamping, the
//! per-pixel colour carried across rays that miss, and byte-exact ASCII
//! PPM (P3) encoding of the rendered image.
pub mod color;
pub mod ppm;
pub mod render;
