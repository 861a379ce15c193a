//! Escape-time fractal sampling and histogram-equalized shading, verified.
//!
//! The library covers the numeric core of a fractal renderer:
//! a viewport over the complex plane with recenter/zoom transforms,
//! a canvas sizer that preserves the viewport's aspect ratio,
//! the pixel-grid indexing and per-orbit escape decisions of the sampler,
//! and the two-pass histogram equalizer that turns escape values into
//! percentile ranks.
//!
//! Plane coordinates are fixed-point integers: the caller picks a unit
//! (say, one millionth) and every coordinate is a count of those units.
//! Escape values enter the equalizer as order-preserving integer keys
//! (key 0 is the interior sentinel; escaped pixels carry keys `>= 1`).
//! The floating-point work of a renderer - running the complex recurrence,
//! the logarithmic smoothing, the power-law grey ramp, file output - sits
//! outside this crate and hands plain integers in and out.

pub mod canvas;
pub mod equalizer;
pub mod error;
pub mod sampler;
pub mod viewport;
