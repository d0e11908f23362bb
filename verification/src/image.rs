//! Background image references: a payload named by filename, positioned by an
//! affine transform. The payload itself stays undecoded; decoding to pixels
//! is an explicit opt-in step outside this core, since it can fail or be
//! expensive and callers may only want the metadata.

use vstd::prelude::*;
use crate::matrix::GlifMatrix;

verus! {

/// A reference to a background image behind a glyph.
#[derive(Debug, Clone, PartialEq)]
pub struct GlifImage {
    /// The name of the file holding the undecoded payload.
    pub filename: String,
    /// Where and how the image is drawn.
    pub transform: GlifMatrix,
}

impl GlifImage {
    pub fn new() -> (r: GlifImage)
        ensures
            r.filename@ == Seq::<char>::empty(),
            r.transform == GlifMatrix::spec_identity(),
    {
        GlifImage { filename: String::new(), transform: GlifMatrix::identity() }
    }
}

} // verus!
