//! Drawable geometry: ordered contours of ordered points, tagged as
//! quadratic or cubic. The outline represents geometry without interpreting
//! it; a contour with zero points is legal and round-trips as zero points.

use vstd::prelude::*;
use crate::point::Point;
use crate::point::PointData;

verus! {

/// The curve order of an outline's contours.
#[derive(Debug, Copy, Clone, PartialEq, Eq, Structural)]
pub enum OutlineType {
    Quadratic,
    Cubic,
}

impl Default for OutlineType {
    fn default() -> (r: Self)
        ensures
            r == OutlineType::Cubic,
    {
        OutlineType::Cubic
    }
}

/// One open or closed sub-path: an ordered sequence of points. Point order is
/// significant; it defines winding and drawing order. Closure is a property
/// of the consuming contour, not stored redundantly.
pub type Contour<PD> = Vec<Point<PD>>;

/// An ordered sequence of contours.
pub type Outline<PD> = Vec<Contour<PD>>;

} // verus!
