//! Procedural video generation from animated Bezier shapes.
//!
//! Shapes are built from Bezier curves, animated by progress-driven
//! animations (static display, cross-shape interpolation, progressive
//! tracing), and rasterized frame by frame onto RGB pixel buffers.
//!
//! All coordinates and scalars are fixed-point numbers with sixteen
//! fractional bits, so every geometric computation is exact integer
//! arithmetic with stated rounding.

pub mod animation;
pub mod artist;
pub mod bezier;
pub mod binomial;
pub mod bresenham;
pub mod brush;
pub mod circle;
pub mod color;
pub mod ease;
pub mod fixed;
pub mod frame;
pub mod interpolate;
pub mod linear_axes;
pub mod polygon;
pub mod rectangle;
pub mod shape;
pub mod trace;
pub mod vector;
pub mod video;
