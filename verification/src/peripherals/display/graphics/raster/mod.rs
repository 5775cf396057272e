//! Rasterisers: which pixels a line and a circle cover.

pub mod circle;
pub mod line;

pub use self::circle::{
    circle_arcs, circle_decision, circle_mirrors, circle_next, circle_points, circle_poles,
    distance_squared, lemma_circle_extent, lemma_circle_near, lemma_circle_octants,
    midpoint_circle, near_circle, within_reach,
};
pub use self::line::{
    bresenham, lemma_horizontal_line, lemma_line_connected, lemma_line_ends, lemma_line_length,
    lemma_vertical_line, line_points, span, touches_next, within_corners,
};
use vstd::prelude::*;

verus! {

/// A position on the pixel grid. The panel's own pixels have both
/// coordinates from 0 to 239; a shape may reach outside.
#[derive(Debug, Clone, Copy, PartialEq, Eq, Structural)]
pub struct Point {
    pub x: i32,
    pub y: i32,
}

} // verus!
