//! A verified numerical engine for an endless zoom through the Mandelbrot set.
//!
//! Plane coordinates are fixed-point numbers: an `i64` holding the value
//! times `2^56` (see [`math::ONE`]).  The engine computes escape-time fields,
//! scores them for visual interest, smooths motion with a critically damped
//! spring and sequences zooming, searching and panning in a state machine.

pub mod focus_system;
pub mod math;
pub mod parallel;
pub mod spring;
pub mod zoom;

use vstd::prelude::*;

verus! {

/// Width of the pixel grid.
pub const WINDOW_WIDTH: usize = 1280;

/// Height of the pixel grid.
pub const WINDOW_HEIGHT: usize = 720;

/// Number of pixels of the grid.
pub const FIELD_LEN: usize = 921600;

} // verus!
