//! Component references: "draw glyph `base`, transformed by `transform`,
//! here." A component holds a name, never a live reference; resolving it to
//! geometry goes through an externally supplied lookup and lives in the
//! flattening engine.

use vstd::prelude::*;
use crate::matrix::GlifMatrix;

verus! {

/// A by-reference inclusion of another glyph's geometry.
#[derive(Debug, Clone, PartialEq)]
pub struct GlifComponent {
    /// The name of the glyph whose geometry this component draws.
    pub base: String,
    /// The affine transform applied to that geometry.
    pub transform: GlifMatrix,
    /// Optional pair of anchor-class names binding this component's position
    /// to an attachment point.
    pub anchor_binding: Option<(String, String)>,
}

impl GlifComponent {
    pub fn new() -> (r: GlifComponent)
        ensures
            r.base@ == Seq::<char>::empty(),
            r.transform == GlifMatrix::spec_identity(),
            r.anchor_binding is None,
    {
        GlifComponent {
            base: String::new(),
            transform: GlifMatrix::identity(),
            anchor_binding: None,
        }
    }
}

} // verus!
