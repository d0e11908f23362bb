//! Mark-attachment anchors: positioned records with an attachment class name
//! and a kind that stays `Undefined` until layout-feature data, which this
//! core does not parse, is consulted.

use vstd::prelude::*;

verus! {

/// What role an anchor plays in mark attachment. Deriving the true kind
/// requires cross-referencing layout-feature rules external to this core, so
/// parsing always yields `Undefined`; this is a documented scope boundary.
#[derive(Debug, Copy, Clone, PartialEq, Eq, Structural)]
pub enum AnchorType {
    Undefined,
    Mark,
    Base,
    MarkMark,
    MarkBase,
}

/// A named attachment point on a glyph.
#[derive(Debug, Clone, PartialEq)]
pub struct Anchor {
    pub x: i64,
    pub y: i64,
    pub class: String,
    pub kind: AnchorType,
}

impl Anchor {
    pub fn new() -> (r: Anchor)
        ensures
            r.x == 0,
            r.y == 0,
            r.class@ == Seq::<char>::empty(),
            r.kind == AnchorType::Undefined,
    {
        Anchor { x: 0, y: 0, kind: AnchorType::Undefined, class: String::new() }
    }
}

} // verus!
