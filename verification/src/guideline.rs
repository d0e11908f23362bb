//! Guidelines: positioned alignment lines attached to a glyph.

use vstd::prelude::*;

verus! {

/// An alignment line: a point it passes through, an angle, and an optional
/// name.
#[derive(Debug, Clone, PartialEq)]
pub struct Guideline {
    pub x: i64,
    pub y: i64,
    pub angle: i64,
    pub name: Option<String>,
}

impl Guideline {
    pub fn new() -> (r: Guideline)
        ensures
            r.x == 0,
            r.y == 0,
            r.angle == 0,
            r.name is None,
    {
        Guideline { x: 0, y: 0, angle: 0, name: None }
    }
}

} // verus!
