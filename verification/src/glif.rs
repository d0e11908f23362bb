//! The glyph aggregate: one optional outline, unresolved components,
//! anchors, guidelines, images, identity fields and the opaque metadata
//! trees, together with the deterministic glyph-name-to-filename mapping and
//! its sanity check.

use vstd::prelude::*;
use vstd::string::StrSliceExecFns;
use crate::anchor::Anchor;
use crate::component::GlifComponent;
use crate::error::GlifParserError;
use crate::guideline::Guideline;
use crate::image::GlifImage;
use crate::outline::Outline;
use crate::outline::OutlineType;
use crate::point::PointData;
use crate::strutil::push_char;
use crate::xml::XmlElement;

verus! {

/// One glyph's complete source record, as stored in one file.
#[derive(Debug)]
pub struct Glif<PD: PointData> {
    /// The directly authored geometry, if any.
    pub outline: Option<Outline<PD>>,
    /// The curve order the outline draws with; the default when the outline
    /// is absent.
    pub order: OutlineType,
    pub anchors: Vec<Anchor>,
    /// Component references, not yet resolved or checked for cycles; the
    /// flattening engine resolves them on demand.
    pub components: Vec<GlifComponent>,
    pub guidelines: Vec<Guideline>,
    /// Background image references; payloads stay undecoded.
    pub images: Vec<GlifImage>,
    /// Advance width.
    pub width: Option<u64>,
    /// The codepoints this glyph encodes, as Unicode scalar values.
    pub unicode: Vec<u32>,
    pub name: String,
    /// An arbitrary glyph comment.
    pub note: Option<String>,
    /// Format version of the file; only version 2 is understood.
    pub format: u8,
    /// Where this glyph was read from, if the caller set it.
    pub filename: Option<String>,
    /// The standard-location opaque metadata tree, preserved but never
    /// interpreted.
    pub lib: Option<XmlElement>,
    /// A private, tool-specific opaque metadata tree, stored under
    /// `private_lib_root`.
    pub private_lib: Option<XmlElement>,
    /// The root tag the private metadata tree is stored under.
    pub private_lib_root: String,
}

/// Whether `c` is an uppercase Latin letter, the characters the filename
/// mapping escapes.
pub open spec fn is_uppercase_latin(c: char) -> bool {
    'A' as u32 <= c as u32 <= 'Z' as u32
}

/// The escaped form of a glyph name: every uppercase Latin letter gets an
/// escape separator inserted before it.
pub open spec fn spec_filename_chars(name: Seq<char>) -> Seq<char>
    decreases name.len(),
{
    if name.len() == 0 {
        Seq::empty()
    } else {
        spec_filename_chars(name.drop_last()) + (if is_uppercase_latin(name.last()) {
            seq!['_', name.last()]
        } else {
            seq![name.last()]
        })
    }
}

/// The on-disk filename of a glyph name: its escaped form plus the format's
/// canonical file extension.
pub open spec fn spec_name_to_filename(name: Seq<char>) -> Seq<char> {
    spec_filename_chars(name) + ".glif"@
}

/// The file-name component of a stored path: everything after the last
/// separator, or the whole path when it has none.
pub open spec fn spec_file_part(p: Seq<char>) -> Seq<char>
    decreases p.len(),
{
    if !p.contains('/') {
        p
    } else {
        spec_file_part(p.drop_first())
    }
}

/// A name with no uppercase Latin letters passes through the escaping
/// unchanged.
pub proof fn lemma_filename_chars_no_uppercase(n: Seq<char>)
    requires
        forall|i: int| 0 <= i < n.len() ==> !is_uppercase_latin(n[i]),
    ensures
        spec_filename_chars(n) == n,
    decreases n.len(),
{
    if n.len() > 0 {
        lemma_filename_chars_no_uppercase(n.drop_last());
        assert(spec_filename_chars(n) =~= n);
    }
}

/// Filename stability: the filename is a function of the glyph name's
/// characters alone, so equal names always map to equal filenames.
pub proof fn lemma_filename_stability(n1: Seq<char>, n2: Seq<char>)
    requires
        n1 == n2,
    ensures
        spec_name_to_filename(n1) == spec_name_to_filename(n2),
{
}

/// A name with no uppercase Latin letters and no two adjacent separators of
/// its own maps to a filename with no two adjacent escape separators.
pub proof fn lemma_filename_no_double_separator(n: Seq<char>)
    requires
        forall|i: int| 0 <= i < n.len() ==> !is_uppercase_latin(n[i]),
        forall|i: int| 0 <= i < n.len() - 1 ==> !(#[trigger] n[i] == '_' && n[i + 1] == '_'),
    ensures
        forall|i: int|
            0 <= i < spec_name_to_filename(n).len() - 1 ==> !(#[trigger] spec_name_to_filename(n)[i]
                == '_' && spec_name_to_filename(n)[i + 1] == '_'),
{
    lemma_filename_chars_no_uppercase(n);
    let out = spec_name_to_filename(n);
    reveal_strlit(".glif");
    assert forall|i: int| 0 <= i < out.len() - 1 implies !(#[trigger] out[i] == '_' && out[i + 1]
        == '_') by {
        if i + 1 < n.len() {
        } else if i < n.len() {
            assert(out[i + 1] == '.');
        } else {
            assert(out[i] == ".glif"@[i - n.len()]);
        }
    }
}

/// The file-name component of a path is the part after its last separator.
proof fn lemma_file_part_after_last_slash(p: Seq<char>, cut: int)
    requires
        0 <= cut <= p.len(),
        forall|j: int| cut <= j < p.len() ==> p[j] != '/',
        cut == 0 || p[cut - 1] == '/',
    ensures
        spec_file_part(p) == p.subrange(cut, p.len() as int),
    decreases p.len(),
{
    if cut == 0 {
        assert(!p.contains('/'));
        assert(p.subrange(0, p.len() as int) =~= p);
    } else {
        assert(p.contains('/')) by {
            assert(p[cut - 1] == '/');
        }
        let q = p.drop_first();
        assert(forall|j: int| cut - 1 <= j < q.len() ==> q[j] != '/');
        lemma_file_part_after_last_slash(q, cut - 1);
        assert(q.subrange(cut - 1, q.len() as int) =~= p.subrange(cut, p.len() as int));
    }
}

impl<PD: PointData> Glif<PD> {
    /// A fresh glyph: no geometry, cubic default order, empty collections,
    /// format version 2, and the default private metadata root tag.
    pub fn new() -> (r: Self)
        ensures
            r.outline is None,
            r.order == OutlineType::Cubic,
            r.anchors@ == Seq::<Anchor>::empty(),
            r.components@ == Seq::<GlifComponent>::empty(),
            r.guidelines@ == Seq::<Guideline>::empty(),
            r.images@ == Seq::<GlifImage>::empty(),
            r.width is None,
            r.unicode@ == Seq::<u32>::empty(),
            r.name@ == Seq::<char>::empty(),
            r.note is None,
            r.format == 2,
            r.filename is None,
            r.lib is None,
            r.private_lib is None,
            r.private_lib_root@ == "MFEK"@,
    {
        Glif {
            outline: None,
            order: OutlineType::Cubic,
            anchors: Vec::new(),
            components: Vec::new(),
            guidelines: Vec::new(),
            images: Vec::new(),
            width: None,
            unicode: Vec::new(),
            name: String::new(),
            note: None,
            format: 2,
            filename: None,
            lib: None,
            private_lib: None,
            private_lib_root: "MFEK".to_owned(),
        }
    }

    /// The deterministic on-disk filename for this glyph's name: an escape
    /// separator is inserted before every uppercase Latin letter, and the
    /// format's file extension is appended. The same mapping also validates a
    /// stored filename.
    pub fn name_to_filename(&self) -> (r: String)
        ensures
            r@ == spec_name_to_filename(self.name@),
    {
        let mut ret = String::new();
        let n = self.name.as_str();
        let len = n.unicode_len();
        let mut i: usize = 0;
        while i < len
            invariant
                i <= len,
                len == n@.len(),
                n@ == self.name@,
                ret@ == spec_filename_chars(n@.subrange(0, i as int)),
            decreases len - i,
        {
            let c = n.get_char(i);
            proof {
                assert(n@.subrange(0, i + 1).drop_last() =~= n@.subrange(0, i as int));
                assert(n@.subrange(0, i + 1).last() == n@[i as int]);
            }
            if 'A' as u32 <= c as u32 && c as u32 <= 'Z' as u32 {
                push_char(&mut ret, '_');
            }
            push_char(&mut ret, c);
            proof {
                assert(ret@ =~= spec_filename_chars(n@.subrange(0, i + 1)));
            }
            i += 1;
        }
        proof {
            assert(n@.subrange(0, len as int) =~= n@);
        }
        ret.append(".glif");
        ret
    }

    /// Check the stored filename against the name-derived one. Three causes
    /// collapse into the same failure kind: no filename is set, the filename
    /// names a directory, or the filename does not match the mapping.
    /// `Ok(true)` comes back only on an exact match; `Ok(false)` is never
    /// returned.
    pub fn filename_is_sane(&self) -> (r: Result<bool, GlifParserError>)
        ensures
            self.filename is None ==> (r matches Err(GlifParserError::GlifFilenameInsane(m))
                && m@ == "Glif file name is not set"@),
            self.filename matches Some(f) && spec_file_part(f@).len() == 0 ==> (r matches Err(
                GlifParserError::GlifFilenameInsane(m),
            ) && m@ == "Glif file name is directory"@),
            self.filename matches Some(f) && spec_file_part(f@).len() > 0 && spec_file_part(f@)
                == spec_name_to_filename(self.name@) ==> r == Ok::<bool, GlifParserError>(true),
            self.filename matches Some(f) && spec_file_part(f@).len() > 0 && spec_file_part(f@)
                != spec_name_to_filename(self.name@) ==> (r matches Err(
                GlifParserError::GlifFilenameInsane(m),
            ) && m@ == "Glif file name does not match the glyph name"@),
    {
        match &self.filename {
            None => Err(
                GlifParserError::GlifFilenameInsane("Glif file name is not set".to_owned()),
            ),
            Some(gfn) => {
                let f = gfn.as_str();
                let len = f.unicode_len();
                let mut cut: usize = 0;
                let mut i: usize = 0;
                while i < len
                    invariant
                        i <= len,
                        cut <= i,
                        len == f@.len(),
                        forall|j: int| cut <= j < i ==> f@[j] != '/',
                        cut == 0 || f@[cut - 1] == '/',
                    decreases len - i,
                {
                    let c = f.get_char(i);
                    if c == '/' {
                        cut = i + 1;
                    }
                    i += 1;
                }
                proof {
                    lemma_file_part_after_last_slash(f@, cut as int);
                }
                if cut == len {
                    return Err(
                        GlifParserError::GlifFilenameInsane("Glif file name is directory".to_owned()),
                    );
                }
                let part = f.substring_char(cut, len).to_owned();
                let expected = self.name_to_filename();
                if expected == part {
                    Ok(true)
                } else {
                    Err(
                        GlifParserError::GlifFilenameInsane(
                            "Glif file name does not match the glyph name".to_owned(),
                        ),
                    )
                }
            },
        }
    }
}

} // verus!
