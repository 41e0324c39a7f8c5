//! Verified core of a tick-driven LED-matrix renderer.
//!
//! A sandboxed guest module renders one pixel frame per tick; the host copies
//! the frame out of the guest's linear memory under an explicit bounds check,
//! reorders it for the serpentine-wired strip, and hands the bytes to the
//! output sink. The animation state machine, the colour conversion, the
//! pixel-buffer protocol and the coordinate mapping are all specified and
//! proved here.

pub mod color;
pub mod demo;
pub mod error;
pub mod guest;
pub mod host;
pub mod laws;
pub mod mem;
pub mod patterns;
pub mod pixel;
pub mod sandbox;
pub mod segments;
pub mod serpentine;
pub mod timing;
