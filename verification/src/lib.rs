//! Locating a three-bar "boost meter" gauge in a captured RGBA frame and
//! estimating how far each bar is filled.
//!
//! The library works on a tightly packed RGBA8 byte buffer (row-major, four
//! bytes per pixel, no row padding).  It discovers the smallest axis-aligned
//! box enclosing all gauge-colored pixels in the lower-right quadrant of the
//! frame with a coarse-then-refine scan, then samples three vertical columns
//! of the box and reports, for each, how many rows are filled.

pub mod bounds;
pub mod color;
pub mod fill;
