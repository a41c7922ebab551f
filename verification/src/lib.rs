//! Involute spur gear geometry in 64-bit fixed point.
//!
//! Lengths and angles carry sixteen fractional bits: the value `65536`
//! stands for one unit of length or one degree.  The library derives the
//! involute offset correction for a gear configuration, samples the
//! involute tooth faces into a closed polyline, and assembles spokes and
//! a triangle-fan mesh from that polyline.  Rendering is left to callers.

pub mod fxp;
pub mod gears;
pub mod mesh;
pub mod trig;
