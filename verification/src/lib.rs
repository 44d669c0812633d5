//! Density heat maps of ground-plane observations, drawn on an RGBA canvas.
//!
//! The library works on integer pixel coordinates. It buckets points into a
//! coarse grid, turns the per-cell counts into a red/blue colour ramp, blends
//! that ramp into a canvas and draws grid lines and point markers on top.
//! Every function carries a contract that says, pixel by pixel, what the
//! canvas holds afterwards.

pub mod canvas;
pub mod error;
pub mod heat;
pub mod plot;
pub mod shared;
pub mod watch;
