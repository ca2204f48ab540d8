//! An interactive escape-time view of the Mandelbrot set.
//!
//! A rectangular window onto the complex plane (the [`viewport::Viewport`])
//! is mapped onto a pixel buffer by an escape-time recurrence, and the view
//! reacts to pan, zoom and depth-adjustment input. Plane coordinates are
//! held in two's-complement fixed-point form (see [`fixed`]), so every
//! computation here is exact integer arithmetic with a documented rounding
//! rule.
//!
//! The crate covers the coordinate model, the escape-time evaluation and
//! colour mapping, the per-frame input reduction, and the row-partitioned
//! buffer fill. Window creation, texture upload and raw input capture are an
//! external collaborator's job: it hands in a window size and per-frame
//! events, and takes the finished byte buffer away for display.

pub mod fixed;
pub mod input;
pub mod viewport;
pub mod mapper;
pub mod escape;
pub mod render;
pub mod frame;
