//! Error taxonomy: parse failures at the codec boundary, unresolved or
//! cyclic component references, and filename sanity-check failures. All
//! failures are returned as explicit results, never as panics.

use vstd::prelude::*;

verus! {

/// Every failure this library can report.
#[derive(Debug, Clone, PartialEq)]
pub enum GlifParserError {
    /// Malformed input at the codec boundary; carries a description of the
    /// offending construct.
    XmlParseError(String),
    /// A component referenced a base glyph that the lookup did not find;
    /// carries the missing glyph's name. Recoverable: the caller may
    /// re-resolve after loading the missing glyph.
    UnresolvedComponent(String),
    /// The component graph contains a reference cycle; carries the full
    /// resolution path so the caller can repair the source data.
    CyclicComponentReference(Vec<String>),
    /// The glyph's stored filename failed the sanity check; carries the
    /// reason.
    GlifFilenameInsane(String),
}

impl GlifParserError {
    /// A human-readable description of the failure.
    pub fn message(&self) -> (r: String)
        ensures
            match self {
                GlifParserError::XmlParseError(s) => r@ == "Glif parse error: "@ + s@,
                GlifParserError::UnresolvedComponent(n) => r@ == "Unresolved component: "@ + n@,
                GlifParserError::CyclicComponentReference(_) => r@
                    == "Cyclic component reference"@,
                GlifParserError::GlifFilenameInsane(s) => r@ == "Glif filename insane: "@ + s@,
            },
    {
        match self {
            GlifParserError::XmlParseError(s) => {
                let mut m = "Glif parse error: ".to_owned();
                m.append(s.as_str());
                m
            },
            GlifParserError::UnresolvedComponent(n) => {
                let mut m = "Unresolved component: ".to_owned();
                m.append(n.as_str());
                m
            },
            GlifParserError::CyclicComponentReference(_) => "Cyclic component reference".to_owned(),
            GlifParserError::GlifFilenameInsane(s) => {
                let mut m = "Glif filename insane: ".to_owned();
                m.append(s.as_str());
                m
            },
        }
    }
}

} // verus!
