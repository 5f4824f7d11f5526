//! An ASCII-art generator.
//!
//! The library converts a raster image into a grid of text characters whose
//! visual density approximates the image's luminance. It covers the
//! deterministic image-to-character pipeline (resize, blur + invert,
//! level-adjusted blend, luminance-to-glyph mapping) and the incremental
//! staged scheduler that runs the pipeline as a sequence of cancellable,
//! time-sliced steps.

pub mod art;
pub mod blur;
pub mod color;
pub mod frac;
pub mod glyph;
pub mod imageops;
pub mod levels;
pub mod raster;
pub mod schedule;
