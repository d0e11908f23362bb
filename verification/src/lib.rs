//! Data model and codec for a single glyph's outline description: contours of
//! points with handles, anchors, guidelines, images, components with affine
//! transforms, and an opaque metadata tree, together with the component
//! resolution engine that flattens component references into concrete
//! geometry while detecting reference cycles.

pub mod anchor;
pub mod codec;
pub mod component;
pub mod error;
pub mod flatten;
pub mod glif;
pub mod guideline;
pub mod image;
pub mod matrix;
pub mod numfmt;
pub mod outline;
pub mod point;
pub mod strutil;
pub mod xml;
