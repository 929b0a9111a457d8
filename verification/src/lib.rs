//! Verified fixed-point Mandelbrot renderer.
//!
//! The library computes escape-time fractal frames over a fixed-point model
//! of the complex plane: coordinate mapping, the bounded escape-time
//! recurrence, palette lookup, whole-frame rasterization, and the eased zoom
//! schedule for animation sequences. Image encoding and parallel dispatch
//! live outside the library.

pub mod fixed;
pub mod complex;
pub mod mandel;
pub mod palette;
pub mod viewport;
pub mod render;
pub mod zoom;
