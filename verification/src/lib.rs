//! Merging of per-cell text decorations (underline, strikeout) into filled
//! rectangles for a terminal renderer.
//!
//! The crate has two parts, consumed in sequence for one rendering pass:
//!
//! * a run-merging accumulator, [`tracker::Rects`], that ingests grid cells in
//!   traversal order and closes one rectangle per maximal span of same-line,
//!   same-color, column-adjacent cells carrying the same decoration; and
//! * a pure geometry mapping, [`geometry::create_rect`], that turns a closed
//!   run plus font and grid metrics into a pixel-space rectangle.
//!
//! All pixel-space quantities are fixed-point integers counted in subpixel
//! units of 1/65536 px (see [`geometry::SUBPX`]), so that positions keep
//! sub-pixel accuracy while stroke position and thickness are snapped to whole
//! pixels exactly as the contracts state.

pub mod cell;
pub mod geometry;
pub mod laws;
pub mod tracker;
