//! A small pseudo-3D renderer: a player moving over a flat world sees one
//! vertical wall, which is projected, clipped against the near plane and
//! rasterised as vertical spans into a fixed-size pixel buffer.
//!
//! All arithmetic is on integers. Sines and cosines come in as fixed-point
//! values (see [`trig::TRIG_ONE`]), so every truncation that the renderer
//! performs is an exact rounding toward zero of a rational number.

pub mod arith;
pub mod trig;
pub mod player;
pub mod raster;
pub mod projection;
pub mod engine;
