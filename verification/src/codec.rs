//! The codec boundary: serialize a glyph to the structural tree and read it
//! back. Components are written unresolved, so the file stays a faithful
//! source record; point types that should not be written are omitted; the
//! opaque metadata trees are re-emitted structurally unchanged. Reading a
//! written glyph reproduces it on every field this codec stores.

use vstd::prelude::*;
use crate::anchor::Anchor;
use crate::anchor::AnchorType;
use crate::component::GlifComponent;
use crate::glif::Glif;
use crate::guideline::Guideline;
use crate::image::GlifImage;
use crate::matrix::GlifMatrix;
use crate::numfmt::fmt_i64_radix;
use crate::numfmt::fmt_u64_radix;
use crate::numfmt::parse_i64_radix;
use crate::numfmt::parse_u64_radix;
use crate::numfmt::spec_parse_int;
use crate::numfmt::spec_parse_nat;
use crate::error::GlifParserError;
use crate::strutil::str_eq;
use crate::numfmt::spec_fmt_int;
use crate::numfmt::spec_fmt_nat;
use crate::outline::Contour;
use crate::outline::OutlineType;
use crate::point::Handle;
use crate::point::Point;
use crate::point::PointData;
use crate::point::spec_type_token;
use crate::xml::XmlElement;
use crate::xml::XmlNode;
use crate::xml::element_matches;

verus! {

/// Whether an attribute has the given name and value text.
pub open spec fn attr_is(a: (String, String), n: Seq<char>, v: Seq<char>) -> bool {
    a.0@ == n && a.1@ == v
}

/// The decimal text of a signed coordinate.
pub open spec fn dec(x: i64) -> Seq<char> {
    spec_fmt_int(x as int, 10)
}

/// The token an outline's curve order is written as.
pub open spec fn order_token(o: OutlineType) -> Seq<char> {
    match o {
        OutlineType::Quadratic => "quadratic"@,
        OutlineType::Cubic => "cubic"@,
    }
}

/// Whether a point of this type belongs in serialized output.
pub open spec fn spec_should_write(t: crate::point::PointType) -> bool {
    !(t is Undefined || t is QClose)
}

/// The points of a contour that are written: the fresh and the legacy-close
/// types are filtered out.
pub open spec fn spec_written<PD: PointData>(c: Seq<Point<PD>>) -> Seq<Point<PD>> {
    c.filter(|p: Point<PD>| spec_should_write(p.ptype))
}

/// Whether `e` is the written image of the point `p`.
pub open spec fn is_point_el<PD: PointData>(e: XmlElement, p: Point<PD>) -> bool {
    let n_name: int = if p.name is Some {
        1
    } else {
        0
    };
    let n_a: int = if p.a is At {
        2
    } else {
        0
    };
    let n_b: int = if p.b is At {
        2
    } else {
        0
    };
    &&& e.name@ == "point"@
    &&& e.children@.len() == 0
    &&& e.attrs@.len() == 3 + n_name + n_a + n_b
    &&& attr_is(e.attrs@[0], "x"@, dec(p.x))
    &&& attr_is(e.attrs@[1], "y"@, dec(p.y))
    &&& attr_is(e.attrs@[2], "type"@, spec_type_token(p.ptype))
    &&& (p.name matches Some(nm) ==> attr_is(e.attrs@[3], "name"@, nm@))
    &&& (p.a matches Handle::At(ax, ay) ==> attr_is(e.attrs@[3 + n_name], "ax"@, dec(ax))
        && attr_is(e.attrs@[3 + n_name + 1], "ay"@, dec(ay)))
    &&& (p.b matches Handle::At(bx, by) ==> attr_is(e.attrs@[3 + n_name + n_a], "bx"@, dec(bx))
        && attr_is(e.attrs@[3 + n_name + n_a + 1], "by"@, dec(by)))
}

/// Whether a node holds the written image of the point `p`.
pub open spec fn is_point_node<PD: PointData>(n: XmlNode, p: Point<PD>) -> bool {
    n matches XmlNode::Element(pe) && is_point_el(pe, p)
}

/// Whether `e` is the written image of one contour: exactly the writable
/// points, in order.
pub open spec fn is_contour_el<PD: PointData>(e: XmlElement, c: Seq<Point<PD>>) -> bool {
    let w = spec_written(c);
    &&& e.name@ == "contour"@
    &&& e.attrs@.len() == 0
    &&& e.children@.len() == w.len()
    &&& forall|j: int| 0 <= j < w.len() ==> is_point_node(#[trigger] e.children@[j], w[j])
}

/// Whether `e` is the written image of a glyph's outline section: the curve
/// order, and one wrapper holding the contours when an outline is present.
pub open spec fn is_outline_el<PD: PointData>(e: XmlElement, g: Glif<PD>) -> bool {
    &&& e.name@ == "outline"@
    &&& e.attrs@.len() == 1
    &&& attr_is(e.attrs@[0], "order"@, order_token(g.order))
    &&& (match g.outline {
        None => e.children@.len() == 0,
        Some(o) => e.children@.len() == 1 && (e.children@[0] matches XmlNode::Element(w) && {
            &&& w.name@ == "contours"@
            &&& w.attrs@.len() == 0
            &&& w.children@.len() == o@.len()
            &&& forall|i: int|
                0 <= i < o@.len() ==> ((#[trigger] w.children@[i]) matches XmlNode::Element(ce)
                    && is_contour_el(ce, o@[i]@))
        }),
    })
}

/// Whether `e` is the written image of the advance width.
pub open spec fn is_advance_el(e: XmlElement, w: Option<u64>) -> bool {
    &&& e.name@ == "advance"@
    &&& e.children@.len() == 0
    &&& (match w {
        None => e.attrs@.len() == 0,
        Some(v) => e.attrs@.len() == 1 && attr_is(e.attrs@[0], "width"@, spec_fmt_nat(v as int, 10)),
    })
}

/// Whether `e` is the written image of the codepoint list.
pub open spec fn is_unicodes_el(e: XmlElement, u: Seq<u32>) -> bool {
    &&& e.name@ == "unicodes"@
    &&& e.attrs@.len() == 0
    &&& e.children@.len() == u.len()
    &&& forall|i: int|
        0 <= i < u.len() ==> ((#[trigger] e.children@[i]) matches XmlNode::Element(ue) && {
            &&& ue.name@ == "unicode"@
            &&& ue.children@.len() == 0
            &&& ue.attrs@.len() == 1
            &&& attr_is(ue.attrs@[0], "hex"@, spec_fmt_nat(u[i] as int, 16))
        })
}

/// Whether `e` is the written image of the note.
pub open spec fn is_note_el(e: XmlElement, n: Option<String>) -> bool {
    &&& e.name@ == "note"@
    &&& e.attrs@.len() == 0
    &&& (match n {
        None => e.children@.len() == 0,
        Some(s) => e.children@.len() == 1 && (e.children@[0] matches XmlNode::Text(t) && t@ == s@),
    })
}

/// Whether `e` is the written image of one guideline.
pub open spec fn is_guideline_el(e: XmlElement, gl: Guideline) -> bool {
    &&& e.name@ == "guideline"@
    &&& e.children@.len() == 0
    &&& e.attrs@.len() == 3 + (if gl.name is Some {
        1int
    } else {
        0
    })
    &&& attr_is(e.attrs@[0], "x"@, dec(gl.x))
    &&& attr_is(e.attrs@[1], "y"@, dec(gl.y))
    &&& attr_is(e.attrs@[2], "angle"@, dec(gl.angle))
    &&& (gl.name matches Some(nm) ==> attr_is(e.attrs@[3], "name"@, nm@))
}

/// Whether `e` is the written image of one anchor. The anchor's kind is not
/// persisted: deriving it needs layout-feature data external to this core,
/// so reading always yields the undefined kind.
pub open spec fn is_anchor_el(e: XmlElement, a: Anchor) -> bool {
    &&& e.name@ == "anchor"@
    &&& e.children@.len() == 0
    &&& e.attrs@.len() == 3
    &&& attr_is(e.attrs@[0], "x"@, dec(a.x))
    &&& attr_is(e.attrs@[1], "y"@, dec(a.y))
    &&& attr_is(e.attrs@[2], "class"@, a.class@)
}

/// Whether `e` is the written image of one background image reference.
pub open spec fn is_image_el(e: XmlElement, im: GlifImage) -> bool {
    &&& e.name@ == "image"@
    &&& e.children@.len() == 0
    &&& e.attrs@.len() == 7
    &&& attr_is(e.attrs@[0], "fileName"@, im.filename@)
    &&& attr_is(e.attrs@[1], "xScale"@, dec(im.transform.0))
    &&& attr_is(e.attrs@[2], "xyScale"@, dec(im.transform.1))
    &&& attr_is(e.attrs@[3], "yxScale"@, dec(im.transform.2))
    &&& attr_is(e.attrs@[4], "yScale"@, dec(im.transform.3))
    &&& attr_is(e.attrs@[5], "xOffset"@, dec(im.transform.4))
    &&& attr_is(e.attrs@[6], "yOffset"@, dec(im.transform.5))
}

/// Whether `e` is the written image of one component reference: the base
/// glyph's name, the six transform coefficients, and the optional anchor
/// binding. Components are written unresolved, never flattened.
pub open spec fn is_component_el(e: XmlElement, c: GlifComponent) -> bool {
    &&& e.name@ == "component"@
    &&& e.children@.len() == 0
    &&& e.attrs@.len() == 7 + (if c.anchor_binding is Some {
        2int
    } else {
        0
    })
    &&& attr_is(e.attrs@[0], "base"@, c.base@)
    &&& attr_is(e.attrs@[1], "xScale"@, dec(c.transform.0))
    &&& attr_is(e.attrs@[2], "xyScale"@, dec(c.transform.1))
    &&& attr_is(e.attrs@[3], "yxScale"@, dec(c.transform.2))
    &&& attr_is(e.attrs@[4], "yScale"@, dec(c.transform.3))
    &&& attr_is(e.attrs@[5], "xOffset"@, dec(c.transform.4))
    &&& attr_is(e.attrs@[6], "yOffset"@, dec(c.transform.5))
    &&& (c.anchor_binding matches Some(b) ==> attr_is(e.attrs@[7], "anchorFrom"@, b.0@)
        && attr_is(e.attrs@[8], "anchorTo"@, b.1@))
}

/// Whether `e` wraps the written images of a list of records, one child per
/// record, in order.
pub open spec fn wraps<T>(e: XmlElement, name: Seq<char>, items: Seq<T>, pred: spec_fn(
    XmlElement,
    T,
) -> bool) -> bool {
    &&& e.name@ == name
    &&& e.attrs@.len() == 0
    &&& e.children@.len() == items.len()
    &&& forall|i: int|
        0 <= i < items.len() ==> ((#[trigger] e.children@[i]) matches XmlNode::Element(ce) && pred(
            ce,
            items[i],
        ))
}

/// Whether `e` is the written image of the standard opaque metadata tree:
/// the stored element itself, structurally unchanged, under the wrapper.
pub open spec fn is_lib_el(e: XmlElement, l: Option<XmlElement>) -> bool {
    &&& e.name@ == "lib"@
    &&& e.attrs@.len() == 0
    &&& (match l {
        None => e.children@.len() == 0,
        Some(inner) => e.children@.len() == 1 && (e.children@[0] matches XmlNode::Element(ie)
            && element_matches(ie, inner)),
    })
}

/// Whether `e` is the written image of the private metadata tree and its
/// root tag. The surrounding format layer embeds this wrapper's content as a
/// structured comment in the raw text, so generic readers skip it safely.
pub open spec fn is_private_el(e: XmlElement, root: Seq<char>, l: Option<XmlElement>) -> bool {
    &&& e.name@ == "private"@
    &&& e.attrs@.len() == 1
    &&& attr_is(e.attrs@[0], "root"@, root)
    &&& (match l {
        None => e.children@.len() == 0,
        Some(inner) => e.children@.len() == 1 && (e.children@[0] matches XmlNode::Element(ie)
            && element_matches(ie, inner)),
    })
}


/// Whether `e` wraps the written images of the guideline list.
pub open spec fn is_guidelines_el(e: XmlElement, items: Seq<Guideline>) -> bool {
    wraps(e, "guidelines"@, items, |x: XmlElement, v: Guideline| is_guideline_el(x, v))
}

/// Whether `e` wraps the written images of the anchor list.
pub open spec fn is_anchors_el(e: XmlElement, items: Seq<Anchor>) -> bool {
    wraps(e, "anchors"@, items, |x: XmlElement, v: Anchor| is_anchor_el(x, v))
}

/// Whether `e` wraps the written images of the image list.
pub open spec fn is_images_el(e: XmlElement, items: Seq<GlifImage>) -> bool {
    wraps(e, "images"@, items, |x: XmlElement, v: GlifImage| is_image_el(x, v))
}

/// Whether `e` wraps the written images of the component list.
pub open spec fn is_components_el(e: XmlElement, items: Seq<GlifComponent>) -> bool {
    wraps(e, "components"@, items, |x: XmlElement, v: GlifComponent| is_component_el(x, v))
}

/// Whether child `k` of `e` is an element satisfying `ok`.
pub open spec fn child_el(e: XmlElement, k: int, ok: spec_fn(XmlElement) -> bool) -> bool {
    e.children@[k] matches XmlNode::Element(ce) && ok(ce)
}

/// Whether `e` is the written image of the whole glyph.
pub open spec fn is_glyph_el<PD: PointData>(e: XmlElement, g: Glif<PD>) -> bool {
    &&& e.name@ == "glyph"@
    &&& e.attrs@.len() == 2
    &&& attr_is(e.attrs@[0], "name"@, g.name@)
    &&& attr_is(e.attrs@[1], "format"@, spec_fmt_nat(g.format as int, 10))
    &&& e.children@.len() == 10
    &&& child_el(e, 0, |ce: XmlElement| is_advance_el(ce, g.width))
    &&& child_el(e, 1, |ce: XmlElement| is_unicodes_el(ce, g.unicode@))
    &&& child_el(e, 2, |ce: XmlElement| is_note_el(ce, g.note))
    &&& child_el(e, 3, |ce: XmlElement| is_guidelines_el(ce, g.guidelines@))
    &&& child_el(e, 4, |ce: XmlElement| is_anchors_el(ce, g.anchors@))
    &&& child_el(e, 5, |ce: XmlElement| is_images_el(ce, g.images@))
    &&& child_el(e, 6, |ce: XmlElement| is_outline_el(ce, g))
    &&& child_el(e, 7, |ce: XmlElement| is_components_el(ce, g.components@))
    &&& child_el(e, 8, |ce: XmlElement| is_lib_el(ce, g.lib))
    &&& child_el(e, 9, |ce: XmlElement| is_private_el(ce, g.private_lib_root@, g.private_lib))
}

/// One attribute from a name literal and a value.
fn attr(n: &str, v: String) -> (r: (String, String))
    ensures
        r.0@ == n@,
        r.1 == v,
{
    (n.to_owned(), v)
}

/// Write one point.
fn write_point<PD: PointData>(p: &Point<PD>) -> (r: XmlElement)
    ensures
        is_point_el(r, *p),
{
    let mut attrs: Vec<(String, String)> = Vec::new();
    attrs.push(attr("x", fmt_i64_radix(p.x, 10)));
    attrs.push(attr("y", fmt_i64_radix(p.y, 10)));
    attrs.push(attr("type", p.ptype.to_token()));
    match &p.name {
        Some(nm) => attrs.push(attr("name", nm.clone())),
        None => (),
    }
    match p.a {
        Handle::At(ax, ay) => {
            attrs.push(attr("ax", fmt_i64_radix(ax, 10)));
            attrs.push(attr("ay", fmt_i64_radix(ay, 10)));
        },
        Handle::Colocated => (),
    }
    match p.b {
        Handle::At(bx, by) => {
            attrs.push(attr("bx", fmt_i64_radix(bx, 10)));
            attrs.push(attr("by", fmt_i64_radix(by, 10)));
        },
        Handle::Colocated => (),
    }
    XmlElement { name: "point".to_owned(), attrs, children: Vec::new() }
}

/// Write one contour, emitting exactly its writable points in order.
fn write_contour<PD: PointData>(c: &Contour<PD>) -> (r: XmlElement)
    ensures
        is_contour_el(r, c@),
{
    let mut children: Vec<XmlNode> = Vec::new();
    let mut i: usize = 0;
    proof {
        reveal(Seq::filter);
        assert(c@.subrange(0, 0) =~= Seq::<Point<PD>>::empty());
        assert(spec_written(c@.subrange(0, 0)) =~= Seq::<Point<PD>>::empty());
    }
    while i < c.len()
        invariant
            i <= c@.len(),
            children@.len() == spec_written(c@.subrange(0, i as int)).len(),
            forall|j: int|
                0 <= j < children@.len() ==> is_point_node(
                    #[trigger] children@[j],
                    spec_written(c@.subrange(0, i as int))[j],
                ),
        decreases c@.len() - i,
    {
        let ghost pre = c@.subrange(0, i as int);
        let ghost pre2 = c@.subrange(0, i + 1);
        proof {
            reveal(Seq::filter);
            assert(pre2.drop_last() =~= pre);
            assert(pre2.last() == c@[i as int]);
        }
        if c[i].ptype.should_write_to_ufo() {
            children.push(XmlNode::Element(write_point(&c[i])));
            proof {
                assert(spec_written(pre2) =~= spec_written(pre).push(c@[i as int]));
            }
        } else {
            proof {
                assert(spec_written(pre2) =~= spec_written(pre));
            }
        }
        i += 1;
    }
    proof {
        assert(c@.subrange(0, c@.len() as int) =~= c@);
    }
    XmlElement { name: "contour".to_owned(), attrs: Vec::new(), children }
}

/// Write the outline section.
fn write_outline_el<PD: PointData>(g: &Glif<PD>) -> (r: XmlElement)
    ensures
        is_outline_el(r, *g),
{
    let order = match g.order {
        OutlineType::Quadratic => "quadratic".to_owned(),
        OutlineType::Cubic => "cubic".to_owned(),
    };
    let mut attrs: Vec<(String, String)> = Vec::new();
    attrs.push(attr("order", order));
    let mut children: Vec<XmlNode> = Vec::new();
    match &g.outline {
        None => (),
        Some(o) => {
            let mut inner: Vec<XmlNode> = Vec::new();
            let mut i: usize = 0;
            while i < o.len()
                invariant
                    i <= o@.len(),
                    inner@.len() == i,
                    forall|j: int|
                        0 <= j < i ==> ((#[trigger] inner@[j]) matches XmlNode::Element(ce)
                            && is_contour_el(ce, o@[j]@)),
                decreases o@.len() - i,
            {
                inner.push(XmlNode::Element(write_contour(&o[i])));
                i += 1;
            }
            children.push(
                XmlNode::Element(
                    XmlElement { name: "contours".to_owned(), attrs: Vec::new(), children: inner },
                ),
            );
        },
    }
    XmlElement { name: "outline".to_owned(), attrs, children }
}

/// Write one component reference, unresolved.
fn write_component(c: &GlifComponent) -> (r: XmlElement)
    ensures
        is_component_el(r, *c),
{
    let mut attrs: Vec<(String, String)> = Vec::new();
    attrs.push(attr("base", c.base.clone()));
    attrs.push(attr("xScale", fmt_i64_radix(c.transform.0, 10)));
    attrs.push(attr("xyScale", fmt_i64_radix(c.transform.1, 10)));
    attrs.push(attr("yxScale", fmt_i64_radix(c.transform.2, 10)));
    attrs.push(attr("yScale", fmt_i64_radix(c.transform.3, 10)));
    attrs.push(attr("xOffset", fmt_i64_radix(c.transform.4, 10)));
    attrs.push(attr("yOffset", fmt_i64_radix(c.transform.5, 10)));
    match &c.anchor_binding {
        Some(b) => {
            attrs.push(attr("anchorFrom", b.0.clone()));
            attrs.push(attr("anchorTo", b.1.clone()));
        },
        None => (),
    }
    XmlElement { name: "component".to_owned(), attrs, children: Vec::new() }
}

/// Write one guideline.
fn write_guideline(gl: &Guideline) -> (r: XmlElement)
    ensures
        is_guideline_el(r, *gl),
{
    let mut attrs: Vec<(String, String)> = Vec::new();
    attrs.push(attr("x", fmt_i64_radix(gl.x, 10)));
    attrs.push(attr("y", fmt_i64_radix(gl.y, 10)));
    attrs.push(attr("angle", fmt_i64_radix(gl.angle, 10)));
    match &gl.name {
        Some(nm) => attrs.push(attr("name", nm.clone())),
        None => (),
    }
    XmlElement { name: "guideline".to_owned(), attrs, children: Vec::new() }
}

/// Write one anchor; its kind is not persisted.
fn write_anchor(a: &Anchor) -> (r: XmlElement)
    ensures
        is_anchor_el(r, *a),
{
    let mut attrs: Vec<(String, String)> = Vec::new();
    attrs.push(attr("x", fmt_i64_radix(a.x, 10)));
    attrs.push(attr("y", fmt_i64_radix(a.y, 10)));
    attrs.push(attr("class", a.class.clone()));
    XmlElement { name: "anchor".to_owned(), attrs, children: Vec::new() }
}

/// Write one background image reference.
fn write_image(im: &GlifImage) -> (r: XmlElement)
    ensures
        is_image_el(r, *im),
{
    let mut attrs: Vec<(String, String)> = Vec::new();
    attrs.push(attr("fileName", im.filename.clone()));
    attrs.push(attr("xScale", fmt_i64_radix(im.transform.0, 10)));
    attrs.push(attr("xyScale", fmt_i64_radix(im.transform.1, 10)));
    attrs.push(attr("yxScale", fmt_i64_radix(im.transform.2, 10)));
    attrs.push(attr("yScale", fmt_i64_radix(im.transform.3, 10)));
    attrs.push(attr("xOffset", fmt_i64_radix(im.transform.4, 10)));
    attrs.push(attr("yOffset", fmt_i64_radix(im.transform.5, 10)));
    XmlElement { name: "image".to_owned(), attrs, children: Vec::new() }
}

/// Write a glyph to its structural tree. Components stay unresolved; point
/// types that should not be written are omitted; the opaque metadata trees
/// are re-emitted structurally unchanged.
pub fn write_ufo_glif<PD: PointData>(g: &Glif<PD>) -> (r: XmlElement)
    ensures
        is_glyph_el(r, *g),
{
    let mut attrs: Vec<(String, String)> = Vec::new();
    attrs.push(attr("name", g.name.clone()));
    attrs.push(attr("format", fmt_u64_radix(g.format as u64, 10)));
    let mut children: Vec<XmlNode> = Vec::new();
    // advance
    let mut adv_attrs: Vec<(String, String)> = Vec::new();
    match g.width {
        Some(v) => adv_attrs.push(attr("width", fmt_u64_radix(v, 10))),
        None => (),
    }
    children.push(
        XmlNode::Element(
            XmlElement { name: "advance".to_owned(), attrs: adv_attrs, children: Vec::new() },
        ),
    );
    // unicodes
    let mut uni: Vec<XmlNode> = Vec::new();
    let mut i: usize = 0;
    while i < g.unicode.len()
        invariant
            i <= g.unicode@.len(),
            uni@.len() == i,
            forall|j: int|
                0 <= j < i ==> ((#[trigger] uni@[j]) matches XmlNode::Element(ue) && {
                    &&& ue.name@ == "unicode"@
                    &&& ue.children@.len() == 0
                    &&& ue.attrs@.len() == 1
                    &&& attr_is(ue.attrs@[0], "hex"@, spec_fmt_nat(g.unicode@[j] as int, 16))
                }),
        decreases g.unicode@.len() - i,
    {
        let c = g.unicode[i];
        let mut ua: Vec<(String, String)> = Vec::new();
        ua.push(attr("hex", fmt_u64_radix(c as u64, 16)));
        uni.push(
            XmlNode::Element(
                XmlElement { name: "unicode".to_owned(), attrs: ua, children: Vec::new() },
            ),
        );
        i += 1;
    }
    children.push(
        XmlNode::Element(
            XmlElement { name: "unicodes".to_owned(), attrs: Vec::new(), children: uni },
        ),
    );
    // note
    let mut note_children: Vec<XmlNode> = Vec::new();
    match &g.note {
        Some(s) => note_children.push(XmlNode::Text(s.clone())),
        None => (),
    }
    children.push(
        XmlNode::Element(
            XmlElement { name: "note".to_owned(), attrs: Vec::new(), children: note_children },
        ),
    );
    // guidelines
    let mut gls: Vec<XmlNode> = Vec::new();
    let mut i: usize = 0;
    while i < g.guidelines.len()
        invariant
            i <= g.guidelines@.len(),
            gls@.len() == i,
            forall|j: int|
                0 <= j < i ==> ((#[trigger] gls@[j]) matches XmlNode::Element(ce) && is_guideline_el(
                    ce,
                    g.guidelines@[j],
                )),
        decreases g.guidelines@.len() - i,
    {
        gls.push(XmlNode::Element(write_guideline(&g.guidelines[i])));
        i += 1;
    }
    children.push(
        XmlNode::Element(
            XmlElement { name: "guidelines".to_owned(), attrs: Vec::new(), children: gls },
        ),
    );
    // anchors
    let mut ans: Vec<XmlNode> = Vec::new();
    let mut i: usize = 0;
    while i < g.anchors.len()
        invariant
            i <= g.anchors@.len(),
            ans@.len() == i,
            forall|j: int|
                0 <= j < i ==> ((#[trigger] ans@[j]) matches XmlNode::Element(ce) && is_anchor_el(
                    ce,
                    g.anchors@[j],
                )),
        decreases g.anchors@.len() - i,
    {
        ans.push(XmlNode::Element(write_anchor(&g.anchors[i])));
        i += 1;
    }
    children.push(
        XmlNode::Element(
            XmlElement { name: "anchors".to_owned(), attrs: Vec::new(), children: ans },
        ),
    );
    // images
    let mut ims: Vec<XmlNode> = Vec::new();
    let mut i: usize = 0;
    while i < g.images.len()
        invariant
            i <= g.images@.len(),
            ims@.len() == i,
            forall|j: int|
                0 <= j < i ==> ((#[trigger] ims@[j]) matches XmlNode::Element(ce) && is_image_el(
                    ce,
                    g.images@[j],
                )),
        decreases g.images@.len() - i,
    {
        ims.push(XmlNode::Element(write_image(&g.images[i])));
        i += 1;
    }
    children.push(
        XmlNode::Element(
            XmlElement { name: "images".to_owned(), attrs: Vec::new(), children: ims },
        ),
    );
    // outline
    children.push(XmlNode::Element(write_outline_el(g)));
    // components
    let mut cps: Vec<XmlNode> = Vec::new();
    let mut i: usize = 0;
    while i < g.components.len()
        invariant
            i <= g.components@.len(),
            cps@.len() == i,
            forall|j: int|
                0 <= j < i ==> ((#[trigger] cps@[j]) matches XmlNode::Element(ce) && is_component_el(
                    ce,
                    g.components@[j],
                )),
        decreases g.components@.len() - i,
    {
        cps.push(XmlNode::Element(write_component(&g.components[i])));
        i += 1;
    }
    children.push(
        XmlNode::Element(
            XmlElement { name: "components".to_owned(), attrs: Vec::new(), children: cps },
        ),
    );
    // lib
    let mut lib_children: Vec<XmlNode> = Vec::new();
    match &g.lib {
        Some(l) => lib_children.push(XmlNode::Element(l.duplicate())),
        None => (),
    }
    children.push(
        XmlNode::Element(
            XmlElement { name: "lib".to_owned(), attrs: Vec::new(), children: lib_children },
        ),
    );
    // private metadata
    let mut priv_attrs: Vec<(String, String)> = Vec::new();
    priv_attrs.push(attr("root", g.private_lib_root.clone()));
    let mut priv_children: Vec<XmlNode> = Vec::new();
    match &g.private_lib {
        Some(l) => priv_children.push(XmlNode::Element(l.duplicate())),
        None => (),
    }
    children.push(
        XmlNode::Element(
            XmlElement { name: "private".to_owned(), attrs: priv_attrs, children: priv_children },
        ),
    );
    XmlElement { name: "glyph".to_owned(), attrs, children }
}


/// The fields the codec cannot read back from a tree, at their neutral
/// values: materialized per-point data, anchor kinds, and the source
/// filename are not persisted.
pub open spec fn normalized<PD: PointData>(g: Glif<PD>) -> bool {
    &&& g.filename is None
    &&& (forall|i: int| 0 <= i < g.anchors@.len() ==> (#[trigger] g.anchors@[i]).kind == AnchorType::Undefined)
    &&& (match g.outline {
        None => true,
        Some(o) => forall|i: int, j: int|
            0 <= i < o@.len() && 0 <= j < o@[i]@.len() ==> (#[trigger] o@[i]@[j]).data is None
                && spec_should_write(o@[i]@[j].ptype),
    })
}

/// What reading one point element yields, as a relation on the element.
pub open spec fn point_decoded<PD: PointData>(e: XmlElement, p: Point<PD>) -> bool {
    let has_name = e.attrs@.len() > 3 && e.attrs@[3].0@ == "name"@;
    let n_name: int = if has_name {
        1
    } else {
        0
    };
    let has_a = e.attrs@.len() > 3 + n_name && e.attrs@[3 + n_name].0@ == "ax"@;
    let n_a: int = if has_a {
        2
    } else {
        0
    };
    let has_b = e.attrs@.len() > 3 + n_name + n_a && e.attrs@[3 + n_name + n_a].0@ == "bx"@;
    &&& spec_parse_int(e.attrs@[0].1@, 10) == Some(p.x)
    &&& spec_parse_int(e.attrs@[1].1@, 10) == Some(p.y)
    &&& p.ptype == crate::point::spec_token_type(e.attrs@[2].1@)
    &&& (if has_name {
        p.name matches Some(nm) && nm@ == e.attrs@[3].1@
    } else {
        p.name is None
    })
    &&& (if has_a {
        p.a matches Handle::At(ax, ay) && Some(ax) == spec_parse_int(e.attrs@[3 + n_name].1@, 10)
            && Some(ay) == spec_parse_int(e.attrs@[3 + n_name + 1].1@, 10)
    } else {
        p.a == Handle::Colocated
    })
    &&& (if has_b {
        p.b matches Handle::At(bx, by) && Some(bx) == spec_parse_int(
            e.attrs@[3 + n_name + n_a].1@,
            10,
        ) && Some(by) == spec_parse_int(e.attrs@[3 + n_name + n_a + 1].1@, 10)
    } else {
        p.b == Handle::Colocated
    })
    &&& p.data is None
}

/// Whether two points hold the same content on every field the codec
/// stores.
pub open spec fn point_matches<PD: PointData>(a: Point<PD>, b: Point<PD>) -> bool {
    &&& a.x == b.x
    &&& a.y == b.y
    &&& a.a == b.a
    &&& a.b == b.b
    &&& (match (a.name, b.name) {
        (None, None) => true,
        (Some(x), Some(y)) => x@ == y@,
        _ => false,
    })
    &&& a.ptype == b.ptype
}

/// A parse error naming the offending construct.
fn parse_err(what: &str) -> (r: GlifParserError)
    ensures
        r matches GlifParserError::XmlParseError(_),
{
    GlifParserError::XmlParseError(what.to_owned())
}

/// Facts about the attribute names the point codec distinguishes.
proof fn lemma_point_attr_names()
    ensures
        "name"@ != "ax"@,
        "name"@ != "bx"@,
        "ax"@ != "bx"@,
{
    reveal_strlit("name");
    reveal_strlit("ax");
    reveal_strlit("bx");
    assert("ax"@[0] == 'a');
    assert("bx"@[0] == 'b');
    assert("name"@.len() == 4);
    assert("ax"@.len() == 2);
    assert("bx"@.len() == 2);
}

/// Read one point element.
fn read_point<PD: PointData>(e: &XmlElement) -> (r: Result<Point<PD>, GlifParserError>)
    ensures
        r matches Ok(p) ==> point_decoded(*e, p),
        forall|p: Point<PD>| is_point_el(*e, p) ==> r is Ok,
{
    proof {
        lemma_point_attr_names();
    }
    if !str_eq(e.name.as_str(), "point") || e.children.len() != 0 || e.attrs.len() < 3 {
        return Err(parse_err("point"));
    }
    if !str_eq(e.attrs[0].0.as_str(), "x") || !str_eq(e.attrs[1].0.as_str(), "y") || !str_eq(
        e.attrs[2].0.as_str(),
        "type",
    ) {
        proof {
            assert forall|p: Point<PD>| !is_point_el(*e, p) by {
                reveal_strlit("x");
                reveal_strlit("y");
                reveal_strlit("type");
            }
        }
        return Err(parse_err("point"));
    }
    let x = match parse_i64_radix(e.attrs[0].1.as_str(), 10) {
        Some(v) => v,
        None => {
            proof {
                assert forall|p: Point<PD>| !is_point_el(*e, p) by {
                    crate::numfmt::lemma_parse_fmt_int(p.x, 10);
                }
            }
            return Err(parse_err("point x"));
        },
    };
    let y = match parse_i64_radix(e.attrs[1].1.as_str(), 10) {
        Some(v) => v,
        None => {
            proof {
                assert forall|p: Point<PD>| !is_point_el(*e, p) by {
                    crate::numfmt::lemma_parse_fmt_int(p.y, 10);
                }
            }
            return Err(parse_err("point y"));
        },
    };
    let ptype = crate::point::PointType::from_token(e.attrs[2].1.as_str());
    let mut at: usize = 3;
    let mut name: Option<String> = None;
    if e.attrs.len() > at && str_eq(e.attrs[at].0.as_str(), "name") {
        name = Some(e.attrs[at].1.clone());
        at = at + 1;
    }
    let ghost n_name: int = if name is Some { 1int } else { 0int };
    let mut a: Handle = Handle::Colocated;
    if e.attrs.len() > at && str_eq(e.attrs[at].0.as_str(), "ax") {
        if e.attrs.len() < at + 2 {
            proof {
                assert forall|p: Point<PD>| !is_point_el(*e, p) by {}
            }
            return Err(parse_err("point handle"));
        }
        let ax = match parse_i64_radix(e.attrs[at].1.as_str(), 10) {
            Some(v) => v,
            None => {
                proof {
                    assert forall|p: Point<PD>| !is_point_el(*e, p) by {
                        if p.a is At {
                            crate::numfmt::lemma_parse_fmt_int(p.a->At_0, 10);
                        }
                    }
                }
                return Err(parse_err("point handle"));
            },
        };
        let ay = match parse_i64_radix(e.attrs[at + 1].1.as_str(), 10) {
            Some(v) => v,
            None => {
                proof {
                    assert forall|p: Point<PD>| !is_point_el(*e, p) by {
                        if p.a is At {
                            crate::numfmt::lemma_parse_fmt_int(p.a->At_1, 10);
                        }
                    }
                }
                return Err(parse_err("point handle"));
            },
        };
        a = Handle::At(ax, ay);
        at = at + 2;
    }
    let ghost n_a: int = if a is At { 2int } else { 0int };
    let mut b: Handle = Handle::Colocated;
    if e.attrs.len() > at && str_eq(e.attrs[at].0.as_str(), "bx") {
        if e.attrs.len() < at + 2 {
            proof {
                assert forall|p: Point<PD>| !is_point_el(*e, p) by {}
            }
            return Err(parse_err("point handle"));
        }
        let bx = match parse_i64_radix(e.attrs[at].1.as_str(), 10) {
            Some(v) => v,
            None => {
                proof {
                    assert forall|p: Point<PD>| !is_point_el(*e, p) by {
                        if p.b is At {
                            crate::numfmt::lemma_parse_fmt_int(p.b->At_0, 10);
                        }
                    }
                }
                return Err(parse_err("point handle"));
            },
        };
        let by = match parse_i64_radix(e.attrs[at + 1].1.as_str(), 10) {
            Some(v) => v,
            None => {
                proof {
                    assert forall|p: Point<PD>| !is_point_el(*e, p) by {
                        if p.b is At {
                            crate::numfmt::lemma_parse_fmt_int(p.b->At_1, 10);
                        }
                    }
                }
                return Err(parse_err("point handle"));
            },
        };
        b = Handle::At(bx, by);
        at = at + 2;
    }
    if e.attrs.len() != at {
        proof {
            assert forall|p: Point<PD>| !is_point_el(*e, p) by {}
        }
        return Err(parse_err("point attrs"));
    }
    Ok(Point { x, y, a, b, name, ptype, data: None })
}

/// Reading back a written point reproduces it, for every point that is
/// written at all.
pub proof fn lemma_point_round_trip<PD: PointData>(p: Point<PD>, e: XmlElement, p2: Point<PD>)
    requires
        spec_should_write(p.ptype),
        is_point_el(e, p),
        point_decoded(e, p2),
    ensures
        point_matches(p2, p),
{
    lemma_point_attr_names();
    crate::numfmt::lemma_parse_fmt_int(p.x, 10);
    crate::numfmt::lemma_parse_fmt_int(p.y, 10);
    crate::point::lemma_token_round_trip(p.ptype);
    match p.a {
        Handle::At(ax, ay) => {
            crate::numfmt::lemma_parse_fmt_int(ax, 10);
            crate::numfmt::lemma_parse_fmt_int(ay, 10);
        },
        Handle::Colocated => (),
    }
    match p.b {
        Handle::At(bx, by) => {
            crate::numfmt::lemma_parse_fmt_int(bx, 10);
            crate::numfmt::lemma_parse_fmt_int(by, 10);
        },
        Handle::Colocated => (),
    }
}


/// The curve order a token names; unrecognized tokens normalize to cubic.
pub open spec fn spec_token_order(s: Seq<char>) -> OutlineType {
    if s == "quadratic"@ {
        OutlineType::Quadratic
    } else {
        OutlineType::Cubic
    }
}

/// Reading back a written order token reproduces the order.
proof fn lemma_order_round_trip(o: OutlineType)
    ensures
        spec_token_order(order_token(o)) == o,
{
    reveal_strlit("quadratic");
    reveal_strlit("cubic");
    assert("quadratic"@.len() == 9);
    assert("cubic"@.len() == 5);
}

/// What reading one contour element yields.
pub open spec fn contour_decoded<PD: PointData>(e: XmlElement, c: Seq<Point<PD>>) -> bool {
    &&& c.len() == e.children@.len()
    &&& forall|j: int|
        0 <= j < c.len() ==> ((#[trigger] e.children@[j]) matches XmlNode::Element(pe)
            && point_decoded(pe, c[j]))
}

/// Whether two contours match pointwise.
pub open spec fn contour_matches<PD: PointData>(a: Seq<Point<PD>>, b: Seq<Point<PD>>) -> bool {
    a.len() == b.len() && forall|j: int| 0 <= j < a.len() ==> point_matches(#[trigger] a[j], b[j])
}

/// Read one contour element.
fn read_contour<PD: PointData>(e: &XmlElement) -> (r: Result<Contour<PD>, GlifParserError>)
    ensures
        r matches Ok(c) ==> contour_decoded(*e, c@),
        forall|c: Seq<Point<PD>>| is_contour_el(*e, c) ==> r is Ok,
{
    if !str_eq(e.name.as_str(), "contour") || e.attrs.len() != 0 {
        return Err(parse_err("contour"));
    }
    let mut out: Contour<PD> = Vec::new();
    let mut i: usize = 0;
    while i < e.children.len()
        invariant
            i <= e.children@.len(),
            out@.len() == i,
            forall|j: int|
                0 <= j < i ==> ((#[trigger] e.children@[j]) matches XmlNode::Element(pe)
                    && point_decoded(pe, out@[j])),
        decreases e.children@.len() - i,
    {
        match &e.children[i] {
            XmlNode::Element(pe) => {
                match read_point(pe) {
                    Ok(p) => out.push(p),
                    Err(er) => {
                        proof {
                            assert forall|c: Seq<Point<PD>>| !is_contour_el(*e, c) by {
                                if is_contour_el(*e, c) {
                                    assert(is_point_node(e.children@[i as int], spec_written(c)[i as int]));
                                }
                            }
                        }
                        return Err(er);
                    },
                }
            },
            _ => {
                proof {
                    assert forall|c: Seq<Point<PD>>| !is_contour_el(*e, c) by {
                        if is_contour_el(*e, c) {
                            assert(is_point_node(e.children@[i as int], spec_written(c)[i as int]));
                        }
                    }
                }
                return Err(parse_err("contour child"));
            },
        }
        i += 1;
    }
    Ok(out)
}

/// Reading back a written contour reproduces exactly its writable points.
pub proof fn lemma_contour_round_trip<PD: PointData>(
    c: Seq<Point<PD>>,
    e: XmlElement,
    c2: Seq<Point<PD>>,
)
    requires
        is_contour_el(e, c),
        contour_decoded(e, c2),
    ensures
        contour_matches(c2, spec_written(c)),
{
    let w = spec_written(c);
    assert forall|j: int| 0 <= j < c2.len() implies point_matches(#[trigger] c2[j], w[j]) by {
        assert(is_point_node(e.children@[j], w[j]));
        assert(c.filter(|p: Point<PD>| spec_should_write(p.ptype)) == w);
        c.lemma_filter_pred(|p: Point<PD>| spec_should_write(p.ptype), j);
        let pe = e.children@[j]->Element_0;
        lemma_point_round_trip(w[j], pe, c2[j]);
    }
}

/// What reading the outline section yields.
pub open spec fn outline_decoded<PD: PointData>(
    e: XmlElement,
    ord: OutlineType,
    o: Option<Seq<Seq<Point<PD>>>>,
) -> bool {
    &&& ord == spec_token_order(e.attrs@[0].1@)
    &&& (match o {
        None => e.children@.len() == 0,
        Some(ov) => e.children@.len() == 1 && (e.children@[0] matches XmlNode::Element(w) && {
            &&& ov.len() == w.children@.len()
            &&& forall|i: int|
                0 <= i < ov.len() ==> ((#[trigger] w.children@[i]) matches XmlNode::Element(ce)
                    && contour_decoded(ce, ov[i]))
        }),
    })
}

/// Read the outline section: the curve order and the contours, if present.
fn read_outline<PD: PointData>(e: &XmlElement) -> (r: Result<
    (OutlineType, Option<crate::outline::Outline<PD>>),
    GlifParserError,
>)
    ensures
        r matches Ok(p) ==> outline_decoded(
            *e,
            p.0,
            match p.1 {
                None => None,
                Some(o) => Some(crate::flatten::contours_view(o@)),
            },
        ),
        forall|g: Glif<PD>| is_outline_el(*e, g) ==> r is Ok,
{
    if !str_eq(e.name.as_str(), "outline") || e.attrs.len() != 1 || !str_eq(
        e.attrs[0].0.as_str(),
        "order",
    ) {
        proof {
            assert forall|g: Glif<PD>| !is_outline_el(*e, g) by {
                reveal_strlit("order");
            }
        }
        return Err(parse_err("outline"));
    }
    let ord = if str_eq(e.attrs[0].1.as_str(), "quadratic") {
        OutlineType::Quadratic
    } else {
        OutlineType::Cubic
    };
    if e.children.len() == 0 {
        return Ok((ord, None));
    }
    if e.children.len() != 1 {
        return Err(parse_err("outline children"));
    }
    match &e.children[0] {
        XmlNode::Element(w) => {
            if !str_eq(w.name.as_str(), "contours") || w.attrs.len() != 0 {
                return Err(parse_err("contours"));
            }
            let mut out: crate::outline::Outline<PD> = Vec::new();
            let mut i: usize = 0;
            while i < w.children.len()
                invariant
                    e.children@.len() == 1,
                    e.children@[0] == XmlNode::Element(*w),
                    i <= w.children@.len(),
                    out@.len() == i,
                    forall|j: int|
                        0 <= j < i ==> ((#[trigger] w.children@[j]) matches XmlNode::Element(ce)
                            && contour_decoded(ce, out@[j]@)),
                decreases w.children@.len() - i,
            {
                match &w.children[i] {
                    XmlNode::Element(ce) => {
                        match read_contour(ce) {
                            Ok(c) => out.push(c),
                            Err(er) => {
                                proof {
                                    assert forall|g: Glif<PD>| !is_outline_el(*e, g) by {
                                        if is_outline_el(*e, g) {
                                            match g.outline {
                                                Some(o) => {
                                                    assert(e.children@[0] == XmlNode::Element(*w));
                                                    assert(w.children@[i as int]
                                                        == XmlNode::Element(*ce));
                                                    assert(is_contour_el(*ce, o@[i as int]@));
                                                },
                                                None => (),
                                            }
                                        }
                                    }
                                }
                                return Err(er);
                            },
                        }
                    },
                    _ => {
                        proof {
                            assert forall|g: Glif<PD>| !is_outline_el(*e, g) by {
                                if is_outline_el(*e, g) {
                                    match g.outline {
                                        Some(o) => {
                                            assert(e.children@[0] == XmlNode::Element(*w));
                                            assert(w.children@[i as int] matches XmlNode::Element(
                                                ce2,
                                            ) && is_contour_el(ce2, o@[i as int]@));
                                        },
                                        None => (),
                                    }
                                }
                            }
                        }
                        return Err(parse_err("contour node"));
                    },
                }
                i += 1;
            }
            proof {
                assert forall|j: int|
                    0 <= j < out@.len() implies crate::flatten::contours_view(out@)[j]
                    == out@[j]@ by {}
            }
            Ok((ord, Some(out)))
        },
        _ => {
            return Err(parse_err("outline node"));
        },
    }
}


/// What reading the advance section yields.
pub open spec fn advance_decoded(e: XmlElement, w: Option<u64>) -> bool {
    if e.attrs@.len() == 0 {
        w is None
    } else {
        w matches Some(v) && spec_parse_nat(e.attrs@[0].1@, 10) == Some(v)
    }
}

/// Read the advance section.
fn read_advance(e: &XmlElement) -> (r: Result<Option<u64>, GlifParserError>)
    ensures
        r matches Ok(w) ==> advance_decoded(*e, w),
        forall|w: Option<u64>| is_advance_el(*e, w) ==> r is Ok,
{
    if !str_eq(e.name.as_str(), "advance") || e.children.len() != 0 {
        return Err(parse_err("advance"));
    }
    if e.attrs.len() == 0 {
        return Ok(None);
    }
    if e.attrs.len() != 1 || !str_eq(e.attrs[0].0.as_str(), "width") {
        proof {
            assert forall|w: Option<u64>| !is_advance_el(*e, w) by {
                reveal_strlit("width");
            }
        }
        return Err(parse_err("advance"));
    }
    match parse_u64_radix(e.attrs[0].1.as_str(), 10) {
        Some(v) => Ok(Some(v)),
        None => {
            proof {
                assert forall|w: Option<u64>| !is_advance_el(*e, w) by {
                    match w {
                        Some(v) => crate::numfmt::lemma_parse_fmt_nat(v, 10),
                        None => (),
                    }
                }
            }
            Err(parse_err("advance width"))
        },
    }
}

/// What reading the codepoint section yields.
pub open spec fn unicodes_decoded(e: XmlElement, u: Seq<u32>) -> bool {
    &&& u.len() == e.children@.len()
    &&& forall|i: int|
        0 <= i < u.len() ==> ((#[trigger] e.children@[i]) matches XmlNode::Element(ue)
            && spec_parse_nat(ue.attrs@[0].1@, 16) == Some(u[i] as u64))
}

/// Read the codepoint section.
fn read_unicodes(e: &XmlElement) -> (r: Result<Vec<u32>, GlifParserError>)
    ensures
        r matches Ok(u) ==> unicodes_decoded(*e, u@),
        forall|u: Seq<u32>| is_unicodes_el(*e, u) ==> r is Ok,
{
    if !str_eq(e.name.as_str(), "unicodes") || e.attrs.len() != 0 {
        return Err(parse_err("unicodes"));
    }
    let mut out: Vec<u32> = Vec::new();
    let mut i: usize = 0;
    while i < e.children.len()
        invariant
            i <= e.children@.len(),
            out@.len() == i,
            forall|j: int|
                0 <= j < i ==> ((#[trigger] e.children@[j]) matches XmlNode::Element(ue)
                    && spec_parse_nat(ue.attrs@[0].1@, 16) == Some(out@[j] as u64)),
        decreases e.children@.len() - i,
    {
        let ghost gi = i as int;
        match &e.children[i] {
            XmlNode::Element(ue) => {
                if !str_eq(ue.name.as_str(), "unicode") || ue.children.len() != 0 || ue.attrs.len()
                    != 1 || !str_eq(ue.attrs[0].0.as_str(), "hex") {
                    proof {
                        assert forall|u: Seq<u32>| !is_unicodes_el(*e, u) by {
                            if is_unicodes_el(*e, u) {
                                assert(e.children@[gi] matches XmlNode::Element(x) && x.name@
                                    == "unicode"@ && x.children@.len() == 0 && x.attrs@.len() == 1
                                    && attr_is(x.attrs@[0], "hex"@, spec_fmt_nat(u[gi] as int, 16)));
                                reveal_strlit("hex");
                            }
                        }
                    }
                    return Err(parse_err("unicode"));
                }
                match parse_u64_radix(ue.attrs[0].1.as_str(), 16) {
                    Some(v) => {
                        if v > u32::MAX as u64 {
                            proof {
                                assert forall|u: Seq<u32>| !is_unicodes_el(*e, u) by {
                                    if is_unicodes_el(*e, u) {
                                        assert(e.children@[gi] matches XmlNode::Element(x)
                                            && attr_is(
                                            x.attrs@[0],
                                            "hex"@,
                                            spec_fmt_nat(u[gi] as int, 16),
                                        ));
                                        crate::numfmt::lemma_parse_fmt_nat(u[gi] as u64, 16);
                                    }
                                }
                            }
                            return Err(parse_err("unicode range"));
                        }
                        out.push(v as u32);
                    },
                    None => {
                        proof {
                            assert forall|u: Seq<u32>| !is_unicodes_el(*e, u) by {
                                if is_unicodes_el(*e, u) {
                                    assert(e.children@[gi] matches XmlNode::Element(x) && attr_is(
                                        x.attrs@[0],
                                        "hex"@,
                                        spec_fmt_nat(u[gi] as int, 16),
                                    ));
                                    crate::numfmt::lemma_parse_fmt_nat(u[gi] as u64, 16);
                                }
                            }
                        }
                        return Err(parse_err("unicode hex"));
                    },
                }
            },
            _ => {
                proof {
                    assert forall|u: Seq<u32>| !is_unicodes_el(*e, u) by {
                        if is_unicodes_el(*e, u) {
                            assert(e.children@[gi] matches XmlNode::Element(x) && x.name@
                                == "unicode"@);
                        }
                    }
                }
                return Err(parse_err("unicode node"));
            },
        }
        i += 1;
    }
    Ok(out)
}

/// What reading the note section yields.
pub open spec fn note_decoded(e: XmlElement, n: Option<String>) -> bool {
    if e.children@.len() == 0 {
        n is None
    } else {
        n matches Some(s) && (e.children@[0] matches XmlNode::Text(t) && s@ == t@)
    }
}

/// Read the note section.
fn read_note(e: &XmlElement) -> (r: Result<Option<String>, GlifParserError>)
    ensures
        r matches Ok(n) ==> note_decoded(*e, n),
        forall|n: Option<String>| is_note_el(*e, n) ==> r is Ok,
{
    if !str_eq(e.name.as_str(), "note") || e.attrs.len() != 0 {
        return Err(parse_err("note"));
    }
    if e.children.len() == 0 {
        return Ok(None);
    }
    if e.children.len() != 1 {
        return Err(parse_err("note"));
    }
    match &e.children[0] {
        XmlNode::Text(t) => Ok(Some(t.clone())),
        _ => Err(parse_err("note text")),
    }
}

/// What reading one guideline element yields.
pub open spec fn guideline_decoded(e: XmlElement, gl: Guideline) -> bool {
    &&& spec_parse_int(e.attrs@[0].1@, 10) == Some(gl.x)
    &&& spec_parse_int(e.attrs@[1].1@, 10) == Some(gl.y)
    &&& spec_parse_int(e.attrs@[2].1@, 10) == Some(gl.angle)
    &&& (if e.attrs@.len() == 4 {
        gl.name matches Some(nm) && nm@ == e.attrs@[3].1@
    } else {
        gl.name is None
    })
}

/// Read one guideline element.
fn read_guideline(e: &XmlElement) -> (r: Result<Guideline, GlifParserError>)
    ensures
        r matches Ok(gl) ==> guideline_decoded(*e, gl),
        forall|gl: Guideline| is_guideline_el(*e, gl) ==> r is Ok,
{
    if !str_eq(e.name.as_str(), "guideline") || e.children.len() != 0 || e.attrs.len() < 3
        || e.attrs.len() > 4 {
        return Err(parse_err("guideline"));
    }
    if !str_eq(e.attrs[0].0.as_str(), "x") || !str_eq(e.attrs[1].0.as_str(), "y") || !str_eq(
        e.attrs[2].0.as_str(),
        "angle",
    ) {
        proof {
            assert forall|gl: Guideline| !is_guideline_el(*e, gl) by {
                reveal_strlit("x");
                reveal_strlit("y");
                reveal_strlit("angle");
            }
        }
        return Err(parse_err("guideline"));
    }
    let x = match parse_i64_radix(e.attrs[0].1.as_str(), 10) {
        Some(v) => v,
        None => {
            proof {
                assert forall|gl: Guideline| !is_guideline_el(*e, gl) by {
                    crate::numfmt::lemma_parse_fmt_int(gl.x, 10);
                }
            }
            return Err(parse_err("guideline x"));
        },
    };
    let y = match parse_i64_radix(e.attrs[1].1.as_str(), 10) {
        Some(v) => v,
        None => {
            proof {
                assert forall|gl: Guideline| !is_guideline_el(*e, gl) by {
                    crate::numfmt::lemma_parse_fmt_int(gl.y, 10);
                }
            }
            return Err(parse_err("guideline y"));
        },
    };
    let angle = match parse_i64_radix(e.attrs[2].1.as_str(), 10) {
        Some(v) => v,
        None => {
            proof {
                assert forall|gl: Guideline| !is_guideline_el(*e, gl) by {
                    crate::numfmt::lemma_parse_fmt_int(gl.angle, 10);
                }
            }
            return Err(parse_err("guideline angle"));
        },
    };
    let name = if e.attrs.len() == 4 {
        if !str_eq(e.attrs[3].0.as_str(), "name") {
            return Err(parse_err("guideline name"));
        }
        Some(e.attrs[3].1.clone())
    } else {
        None
    };
    Ok(Guideline { x, y, angle, name })
}

/// What reading one anchor element yields; the kind is always undefined.
pub open spec fn anchor_decoded(e: XmlElement, a: Anchor) -> bool {
    &&& spec_parse_int(e.attrs@[0].1@, 10) == Some(a.x)
    &&& spec_parse_int(e.attrs@[1].1@, 10) == Some(a.y)
    &&& a.class@ == e.attrs@[2].1@
    &&& a.kind == AnchorType::Undefined
}

/// Read one anchor element.
fn read_anchor(e: &XmlElement) -> (r: Result<Anchor, GlifParserError>)
    ensures
        r matches Ok(a) ==> anchor_decoded(*e, a),
        forall|a: Anchor| is_anchor_el(*e, a) ==> r is Ok,
{
    if !str_eq(e.name.as_str(), "anchor") || e.children.len() != 0 || e.attrs.len() != 3 {
        return Err(parse_err("anchor"));
    }
    if !str_eq(e.attrs[0].0.as_str(), "x") || !str_eq(e.attrs[1].0.as_str(), "y") || !str_eq(
        e.attrs[2].0.as_str(),
        "class",
    ) {
        proof {
            assert forall|a: Anchor| !is_anchor_el(*e, a) by {
                reveal_strlit("x");
                reveal_strlit("y");
                reveal_strlit("class");
            }
        }
        return Err(parse_err("anchor"));
    }
    let x = match parse_i64_radix(e.attrs[0].1.as_str(), 10) {
        Some(v) => v,
        None => {
            proof {
                assert forall|a: Anchor| !is_anchor_el(*e, a) by {
                    crate::numfmt::lemma_parse_fmt_int(a.x, 10);
                }
            }
            return Err(parse_err("anchor x"));
        },
    };
    let y = match parse_i64_radix(e.attrs[1].1.as_str(), 10) {
        Some(v) => v,
        None => {
            proof {
                assert forall|a: Anchor| !is_anchor_el(*e, a) by {
                    crate::numfmt::lemma_parse_fmt_int(a.y, 10);
                }
            }
            return Err(parse_err("anchor y"));
        },
    };
    Ok(Anchor { x, y, class: e.attrs[2].1.clone(), kind: AnchorType::Undefined })
}

/// Read six transform coefficient attributes starting at `from`.
fn read_transform(e: &XmlElement, from: usize) -> (r: Result<GlifMatrix, GlifParserError>)
    requires
        from + 6 <= e.attrs@.len(),
    ensures
        r matches Ok(m) ==> {
            &&& spec_parse_int(e.attrs@[from as int].1@, 10) == Some(m.0)
            &&& spec_parse_int(e.attrs@[from + 1].1@, 10) == Some(m.1)
            &&& spec_parse_int(e.attrs@[from + 2].1@, 10) == Some(m.2)
            &&& spec_parse_int(e.attrs@[from + 3].1@, 10) == Some(m.3)
            &&& spec_parse_int(e.attrs@[from + 4].1@, 10) == Some(m.4)
            &&& spec_parse_int(e.attrs@[from + 5].1@, 10) == Some(m.5)
        },
        r is Ok <== exists|m: GlifMatrix|
            {
                &&& e.attrs@[from as int].1@ == dec(m.0)
                &&& e.attrs@[from + 1].1@ == dec(m.1)
                &&& e.attrs@[from + 2].1@ == dec(m.2)
                &&& e.attrs@[from + 3].1@ == dec(m.3)
                &&& e.attrs@[from + 4].1@ == dec(m.4)
                &&& e.attrs@[from + 5].1@ == dec(m.5)
            },
{
    let total = e.attrs.len();
    let t0 = parse_i64_radix(e.attrs[from].1.as_str(), 10);
    let t1 = parse_i64_radix(e.attrs[from + 1].1.as_str(), 10);
    let t2 = parse_i64_radix(e.attrs[from + 2].1.as_str(), 10);
    let t3 = parse_i64_radix(e.attrs[from + 3].1.as_str(), 10);
    let t4 = parse_i64_radix(e.attrs[from + 4].1.as_str(), 10);
    let t5 = parse_i64_radix(e.attrs[from + 5].1.as_str(), 10);
    match (t0, t1, t2, t3, t4, t5) {
        (Some(a), Some(b), Some(c), Some(d), Some(ee), Some(f)) => Ok(GlifMatrix(a, b, c, d, ee, f)),
        _ => {
            proof {
                if exists|m: GlifMatrix|
                    {
                        &&& e.attrs@[from as int].1@ == dec(m.0)
                        &&& e.attrs@[from + 1].1@ == dec(m.1)
                        &&& e.attrs@[from + 2].1@ == dec(m.2)
                        &&& e.attrs@[from + 3].1@ == dec(m.3)
                        &&& e.attrs@[from + 4].1@ == dec(m.4)
                        &&& e.attrs@[from + 5].1@ == dec(m.5)
                    } {
                    let m = choose|m: GlifMatrix|
                        {
                            &&& e.attrs@[from as int].1@ == dec(m.0)
                            &&& e.attrs@[from + 1].1@ == dec(m.1)
                            &&& e.attrs@[from + 2].1@ == dec(m.2)
                            &&& e.attrs@[from + 3].1@ == dec(m.3)
                            &&& e.attrs@[from + 4].1@ == dec(m.4)
                            &&& e.attrs@[from + 5].1@ == dec(m.5)
                        };
                    crate::numfmt::lemma_parse_fmt_int(m.0, 10);
                    crate::numfmt::lemma_parse_fmt_int(m.1, 10);
                    crate::numfmt::lemma_parse_fmt_int(m.2, 10);
                    crate::numfmt::lemma_parse_fmt_int(m.3, 10);
                    crate::numfmt::lemma_parse_fmt_int(m.4, 10);
                    crate::numfmt::lemma_parse_fmt_int(m.5, 10);
                }
            }
            Err(parse_err("transform"))
        },
    }
}

/// What reading one image element yields.
pub open spec fn image_decoded(e: XmlElement, im: GlifImage) -> bool {
    &&& im.filename@ == e.attrs@[0].1@
    &&& spec_parse_int(e.attrs@[1].1@, 10) == Some(im.transform.0)
    &&& spec_parse_int(e.attrs@[2].1@, 10) == Some(im.transform.1)
    &&& spec_parse_int(e.attrs@[3].1@, 10) == Some(im.transform.2)
    &&& spec_parse_int(e.attrs@[4].1@, 10) == Some(im.transform.3)
    &&& spec_parse_int(e.attrs@[5].1@, 10) == Some(im.transform.4)
    &&& spec_parse_int(e.attrs@[6].1@, 10) == Some(im.transform.5)
}

/// Read one image element.
fn read_image(e: &XmlElement) -> (r: Result<GlifImage, GlifParserError>)
    ensures
        r matches Ok(im) ==> image_decoded(*e, im),
        forall|im: GlifImage| is_image_el(*e, im) ==> r is Ok,
{
    if !str_eq(e.name.as_str(), "image") || e.children.len() != 0 || e.attrs.len() != 7 {
        return Err(parse_err("image"));
    }
    if !str_eq(e.attrs[0].0.as_str(), "fileName") {
        proof {
            assert forall|im: GlifImage| !is_image_el(*e, im) by {
                reveal_strlit("fileName");
            }
        }
        return Err(parse_err("image"));
    }
    match read_transform(e, 1) {
        Ok(m) => Ok(GlifImage { filename: e.attrs[0].1.clone(), transform: m }),
        Err(er) => {
            proof {
                assert forall|im: GlifImage| !is_image_el(*e, im) by {}
            }
            Err(er)
        },
    }
}

/// What reading one component element yields.
pub open spec fn component_decoded(e: XmlElement, c: GlifComponent) -> bool {
    &&& c.base@ == e.attrs@[0].1@
    &&& spec_parse_int(e.attrs@[1].1@, 10) == Some(c.transform.0)
    &&& spec_parse_int(e.attrs@[2].1@, 10) == Some(c.transform.1)
    &&& spec_parse_int(e.attrs@[3].1@, 10) == Some(c.transform.2)
    &&& spec_parse_int(e.attrs@[4].1@, 10) == Some(c.transform.3)
    &&& spec_parse_int(e.attrs@[5].1@, 10) == Some(c.transform.4)
    &&& spec_parse_int(e.attrs@[6].1@, 10) == Some(c.transform.5)
    &&& (if e.attrs@.len() == 9 {
        c.anchor_binding matches Some(b) && b.0@ == e.attrs@[7].1@ && b.1@ == e.attrs@[8].1@
    } else {
        c.anchor_binding is None
    })
}

/// Read one component element.
fn read_component(e: &XmlElement) -> (r: Result<GlifComponent, GlifParserError>)
    ensures
        r matches Ok(c) ==> component_decoded(*e, c),
        forall|c: GlifComponent| is_component_el(*e, c) ==> r is Ok,
{
    if !str_eq(e.name.as_str(), "component") || e.children.len() != 0 || e.attrs.len() < 7 || (
    e.attrs.len() != 7 && e.attrs.len() != 9) {
        return Err(parse_err("component"));
    }
    if !str_eq(e.attrs[0].0.as_str(), "base") {
        proof {
            assert forall|c: GlifComponent| !is_component_el(*e, c) by {
                reveal_strlit("base");
            }
        }
        return Err(parse_err("component"));
    }
    let m = match read_transform(e, 1) {
        Ok(m) => m,
        Err(er) => {
            proof {
                assert forall|c: GlifComponent| !is_component_el(*e, c) by {}
            }
            return Err(er);
        },
    };
    let binding = if e.attrs.len() == 9 {
        Some((e.attrs[7].1.clone(), e.attrs[8].1.clone()))
    } else {
        None
    };
    Ok(GlifComponent { base: e.attrs[0].1.clone(), transform: m, anchor_binding: binding })
}


/// What reading the standard metadata section yields.
pub open spec fn lib_decoded(e: XmlElement, l: Option<XmlElement>) -> bool {
    if e.children@.len() == 0 {
        l is None
    } else {
        l matches Some(le) && (e.children@[0] matches XmlNode::Element(ie) && element_matches(
            le,
            ie,
        ))
    }
}

/// Read the standard metadata section; the stored tree comes back as a
/// structural copy, uninterpreted.
fn read_lib(e: &XmlElement) -> (r: Result<Option<XmlElement>, GlifParserError>)
    ensures
        r matches Ok(l) ==> lib_decoded(*e, l),
        forall|l: Option<XmlElement>| is_lib_el(*e, l) ==> r is Ok,
{
    if !str_eq(e.name.as_str(), "lib") || e.attrs.len() != 0 {
        return Err(parse_err("lib"));
    }
    if e.children.len() == 0 {
        return Ok(None);
    }
    if e.children.len() != 1 {
        return Err(parse_err("lib"));
    }
    match &e.children[0] {
        XmlNode::Element(ie) => Ok(Some(ie.duplicate())),
        _ => Err(parse_err("lib tree")),
    }
}

/// What reading the private metadata section yields.
pub open spec fn private_decoded(e: XmlElement, root: String, l: Option<XmlElement>) -> bool {
    &&& root == e.attrs@[0].1
    &&& (if e.children@.len() == 0 {
        l is None
    } else {
        l matches Some(le) && (e.children@[0] matches XmlNode::Element(ie) && element_matches(
            le,
            ie,
        ))
    })
}

/// Read the private metadata section: its root tag and the stored tree.
fn read_private(e: &XmlElement) -> (r: Result<(String, Option<XmlElement>), GlifParserError>)
    ensures
        r matches Ok(p) ==> private_decoded(*e, p.0, p.1),
        forall|root: Seq<char>, l: Option<XmlElement>| is_private_el(*e, root, l) ==> r is Ok,
{
    if !str_eq(e.name.as_str(), "private") || e.attrs.len() != 1 || !str_eq(
        e.attrs[0].0.as_str(),
        "root",
    ) {
        proof {
            assert forall|root: Seq<char>, l: Option<XmlElement>| !is_private_el(*e, root, l) by {
                reveal_strlit("root");
            }
        }
        return Err(parse_err("private"));
    }
    let root = e.attrs[0].1.clone();
    if e.children.len() == 0 {
        return Ok((root, None));
    }
    if e.children.len() != 1 {
        return Err(parse_err("private"));
    }
    match &e.children[0] {
        XmlNode::Element(ie) => Ok((root, Some(ie.duplicate()))),
        _ => Err(parse_err("private tree")),
    }
}

/// Read the guideline collection.
fn read_guidelines(e: &XmlElement) -> (r: Result<Vec<Guideline>, GlifParserError>)
    ensures
        r matches Ok(v) ==> v@.len() == e.children@.len() && (forall|j: int|
            0 <= j < v@.len() ==> ((#[trigger] e.children@[j]) matches XmlNode::Element(x)
                && guideline_decoded(x, v@[j]))),
        forall|items: Seq<Guideline>| #[trigger] is_guidelines_el(*e, items) ==> r is Ok,
{
    if !str_eq(e.name.as_str(), "guidelines") || e.attrs.len() != 0 {
        return Err(parse_err("guidelines"));
    }
    let mut out: Vec<Guideline> = Vec::new();
    let mut i: usize = 0;
    while i < e.children.len()
        invariant
            i <= e.children@.len(),
            out@.len() == i,
            forall|j: int|
                0 <= j < i ==> ((#[trigger] e.children@[j]) matches XmlNode::Element(x)
                    && guideline_decoded(x, out@[j])),
        decreases e.children@.len() - i,
    {
        let ghost gi = i as int;
        match &e.children[i] {
            XmlNode::Element(x) => {
                match read_guideline(x) {
                    Ok(v) => out.push(v),
                    Err(er) => {
                        proof {
                            assert forall|items: Seq<Guideline>| !is_guidelines_el(*e, items) by {
                                if is_guidelines_el(*e, items) {
                                    assert(e.children@[gi] matches XmlNode::Element(x3)
                                        && is_guideline_el(x3, items[gi]));
                                }
                            }
                        }
                        return Err(er);
                    },
                }
            },
            _ => {
                proof {
                    assert forall|items: Seq<Guideline>| !is_guidelines_el(*e, items) by {
                        if is_guidelines_el(*e, items) {
                            assert(e.children@[gi] matches XmlNode::Element(x3)
                                && is_guideline_el(x3, items[gi]));
                        }
                    }
                }
                return Err(parse_err("guideline node"));
            },
        }
        i += 1;
    }
    Ok(out)
}

/// Read the anchor collection.
fn read_anchors(e: &XmlElement) -> (r: Result<Vec<Anchor>, GlifParserError>)
    ensures
        r matches Ok(v) ==> v@.len() == e.children@.len() && (forall|j: int|
            0 <= j < v@.len() ==> ((#[trigger] e.children@[j]) matches XmlNode::Element(x)
                && anchor_decoded(x, v@[j]))),
        forall|items: Seq<Anchor>| #[trigger] is_anchors_el(*e, items) ==> r is Ok,
{
    if !str_eq(e.name.as_str(), "anchors") || e.attrs.len() != 0 {
        return Err(parse_err("anchors"));
    }
    let mut out: Vec<Anchor> = Vec::new();
    let mut i: usize = 0;
    while i < e.children.len()
        invariant
            i <= e.children@.len(),
            out@.len() == i,
            forall|j: int|
                0 <= j < i ==> ((#[trigger] e.children@[j]) matches XmlNode::Element(x)
                    && anchor_decoded(x, out@[j])),
        decreases e.children@.len() - i,
    {
        let ghost gi = i as int;
        match &e.children[i] {
            XmlNode::Element(x) => {
                match read_anchor(x) {
                    Ok(v) => out.push(v),
                    Err(er) => {
                        proof {
                            assert forall|items: Seq<Anchor>| !is_anchors_el(*e, items) by {
                                if is_anchors_el(*e, items) {
                                    assert(e.children@[gi] matches XmlNode::Element(x3)
                                        && is_anchor_el(x3, items[gi]));
                                }
                            }
                        }
                        return Err(er);
                    },
                }
            },
            _ => {
                proof {
                    assert forall|items: Seq<Anchor>| !is_anchors_el(*e, items) by {
                        if is_anchors_el(*e, items) {
                            assert(e.children@[gi] matches XmlNode::Element(x3) && is_anchor_el(
                                x3,
                                items[gi],
                            ));
                        }
                    }
                }
                return Err(parse_err("anchor node"));
            },
        }
        i += 1;
    }
    Ok(out)
}

/// Read the image collection.
fn read_images(e: &XmlElement) -> (r: Result<Vec<GlifImage>, GlifParserError>)
    ensures
        r matches Ok(v) ==> v@.len() == e.children@.len() && (forall|j: int|
            0 <= j < v@.len() ==> ((#[trigger] e.children@[j]) matches XmlNode::Element(x)
                && image_decoded(x, v@[j]))),
        forall|items: Seq<GlifImage>| #[trigger] is_images_el(*e, items) ==> r is Ok,
{
    if !str_eq(e.name.as_str(), "images") || e.attrs.len() != 0 {
        return Err(parse_err("images"));
    }
    let mut out: Vec<GlifImage> = Vec::new();
    let mut i: usize = 0;
    while i < e.children.len()
        invariant
            i <= e.children@.len(),
            out@.len() == i,
            forall|j: int|
                0 <= j < i ==> ((#[trigger] e.children@[j]) matches XmlNode::Element(x)
                    && image_decoded(x, out@[j])),
        decreases e.children@.len() - i,
    {
        let ghost gi = i as int;
        match &e.children[i] {
            XmlNode::Element(x) => {
                match read_image(x) {
                    Ok(v) => out.push(v),
                    Err(er) => {
                        proof {
                            assert forall|items: Seq<GlifImage>| !is_images_el(*e, items) by {
                                if is_images_el(*e, items) {
                                    assert(e.children@[gi] matches XmlNode::Element(x3)
                                        && is_image_el(x3, items[gi]));
                                }
                            }
                        }
                        return Err(er);
                    },
                }
            },
            _ => {
                proof {
                    assert forall|items: Seq<GlifImage>| !is_images_el(*e, items) by {
                        if is_images_el(*e, items) {
                            assert(e.children@[gi] matches XmlNode::Element(x3) && is_image_el(
                                x3,
                                items[gi],
                            ));
                        }
                    }
                }
                return Err(parse_err("image node"));
            },
        }
        i += 1;
    }
    Ok(out)
}

/// Read the component collection.
fn read_components(e: &XmlElement) -> (r: Result<Vec<GlifComponent>, GlifParserError>)
    ensures
        r matches Ok(v) ==> v@.len() == e.children@.len() && (forall|j: int|
            0 <= j < v@.len() ==> ((#[trigger] e.children@[j]) matches XmlNode::Element(x)
                && component_decoded(x, v@[j]))),
        forall|items: Seq<GlifComponent>| #[trigger] is_components_el(*e, items) ==> r is Ok,
{
    if !str_eq(e.name.as_str(), "components") || e.attrs.len() != 0 {
        return Err(parse_err("components"));
    }
    let mut out: Vec<GlifComponent> = Vec::new();
    let mut i: usize = 0;
    while i < e.children.len()
        invariant
            i <= e.children@.len(),
            out@.len() == i,
            forall|j: int|
                0 <= j < i ==> ((#[trigger] e.children@[j]) matches XmlNode::Element(x)
                    && component_decoded(x, out@[j])),
        decreases e.children@.len() - i,
    {
        let ghost gi = i as int;
        match &e.children[i] {
            XmlNode::Element(x) => {
                match read_component(x) {
                    Ok(v) => out.push(v),
                    Err(er) => {
                        proof {
                            assert forall|items: Seq<GlifComponent>| !is_components_el(*e, items) by {
                                if is_components_el(*e, items) {
                                    assert(e.children@[gi] matches XmlNode::Element(x3)
                                        && is_component_el(x3, items[gi]));
                                }
                            }
                        }
                        return Err(er);
                    },
                }
            },
            _ => {
                proof {
                    assert forall|items: Seq<GlifComponent>| !is_components_el(*e, items) by {
                        if is_components_el(*e, items) {
                            assert(e.children@[gi] matches XmlNode::Element(x3) && is_component_el(
                                x3,
                                items[gi],
                            ));
                        }
                    }
                }
                return Err(parse_err("component node"));
            },
        }
        i += 1;
    }
    Ok(out)
}


/// What reading a whole glyph tree yields, field by field.
pub open spec fn glyph_decoded<PD: PointData>(t: XmlElement, g2: Glif<PD>) -> bool {
    &&& g2.name == t.attrs@[0].1
    &&& spec_parse_nat(t.attrs@[1].1@, 10) == Some(g2.format as u64)
    &&& (t.children@[0] matches XmlNode::Element(c) && advance_decoded(c, g2.width))
    &&& (t.children@[1] matches XmlNode::Element(c) && unicodes_decoded(c, g2.unicode@))
    &&& (t.children@[2] matches XmlNode::Element(c) && note_decoded(c, g2.note))
    &&& (t.children@[3] matches XmlNode::Element(c) && g2.guidelines@.len() == c.children@.len()
        && (forall|j: int|
        0 <= j < g2.guidelines@.len() ==> ((#[trigger] c.children@[j]) matches XmlNode::Element(x)
            && guideline_decoded(x, g2.guidelines@[j]))))
    &&& (t.children@[4] matches XmlNode::Element(c) && g2.anchors@.len() == c.children@.len() && (
    forall|j: int|
        0 <= j < g2.anchors@.len() ==> ((#[trigger] c.children@[j]) matches XmlNode::Element(x)
            && anchor_decoded(x, g2.anchors@[j]))))
    &&& (t.children@[5] matches XmlNode::Element(c) && g2.images@.len() == c.children@.len() && (
    forall|j: int|
        0 <= j < g2.images@.len() ==> ((#[trigger] c.children@[j]) matches XmlNode::Element(x)
            && image_decoded(x, g2.images@[j]))))
    &&& (t.children@[6] matches XmlNode::Element(c) && outline_decoded(
        c,
        g2.order,
        match g2.outline {
            None => None,
            Some(o) => Some(crate::flatten::contours_view(o@)),
        },
    ))
    &&& (t.children@[7] matches XmlNode::Element(c) && g2.components@.len() == c.children@.len()
        && (forall|j: int|
        0 <= j < g2.components@.len() ==> ((#[trigger] c.children@[j]) matches XmlNode::Element(x)
            && component_decoded(x, g2.components@[j]))))
    &&& (t.children@[8] matches XmlNode::Element(c) && lib_decoded(c, g2.lib))
    &&& (t.children@[9] matches XmlNode::Element(c) && private_decoded(
        c,
        g2.private_lib_root,
        g2.private_lib,
    ))
    &&& g2.filename is None
}

/// Read a glyph from its structural tree, or report the offending
/// construct. Reading back a written glyph always succeeds and reproduces
/// the glyph.
pub fn read_ufo_glif<PD: PointData>(t: &XmlElement) -> (r: Result<Glif<PD>, GlifParserError>)
    ensures
        r matches Ok(g2) ==> glyph_decoded(*t, g2),
        forall|g: Glif<PD>| #[trigger] is_glyph_el(*t, g) ==> r is Ok,
{
    if !str_eq(t.name.as_str(), "glyph") || t.attrs.len() != 2 || t.children.len() != 10 {
        return Err(parse_err("glyph"));
    }
    if !str_eq(t.attrs[0].0.as_str(), "name") || !str_eq(t.attrs[1].0.as_str(), "format") {
        proof {
            assert forall|g: Glif<PD>| !is_glyph_el(*t, g) by {
                reveal_strlit("name");
                reveal_strlit("format");
            }
        }
        return Err(parse_err("glyph"));
    }
    let format_u64 = match parse_u64_radix(t.attrs[1].1.as_str(), 10) {
        Some(v) => v,
        None => {
            proof {
                assert forall|g: Glif<PD>| !is_glyph_el(*t, g) by {
                    crate::numfmt::lemma_parse_fmt_nat(g.format as u64, 10);
                }
            }
            return Err(parse_err("glyph format"));
        },
    };
    if format_u64 > u8::MAX as u64 {
        proof {
            assert forall|g: Glif<PD>| !is_glyph_el(*t, g) by {
                crate::numfmt::lemma_parse_fmt_nat(g.format as u64, 10);
            }
        }
        return Err(parse_err("glyph format"));
    }
    let c0 = match &t.children[0] {
        XmlNode::Element(x) => x,
        _ => {
            return Err(parse_err("glyph sections"));
        },
    };
    let c1 = match &t.children[1] {
        XmlNode::Element(x) => x,
        _ => {
            return Err(parse_err("glyph sections"));
        },
    };
    let c2 = match &t.children[2] {
        XmlNode::Element(x) => x,
        _ => {
            return Err(parse_err("glyph sections"));
        },
    };
    let c3 = match &t.children[3] {
        XmlNode::Element(x) => x,
        _ => {
            return Err(parse_err("glyph sections"));
        },
    };
    let c4 = match &t.children[4] {
        XmlNode::Element(x) => x,
        _ => {
            return Err(parse_err("glyph sections"));
        },
    };
    let c5 = match &t.children[5] {
        XmlNode::Element(x) => x,
        _ => {
            return Err(parse_err("glyph sections"));
        },
    };
    let c6 = match &t.children[6] {
        XmlNode::Element(x) => x,
        _ => {
            return Err(parse_err("glyph sections"));
        },
    };
    let c7 = match &t.children[7] {
        XmlNode::Element(x) => x,
        _ => {
            return Err(parse_err("glyph sections"));
        },
    };
    let c8 = match &t.children[8] {
        XmlNode::Element(x) => x,
        _ => {
            return Err(parse_err("glyph sections"));
        },
    };
    let c9 = match &t.children[9] {
        XmlNode::Element(x) => x,
        _ => {
            return Err(parse_err("glyph sections"));
        },
    };
    let width = match read_advance(c0) {
        Ok(v) => v,
        Err(er) => {
            proof {
                assert forall|g: Glif<PD>| !is_glyph_el(*t, g) by {}
            }
            return Err(er);
        },
    };
    let unicode = match read_unicodes(c1) {
        Ok(v) => v,
        Err(er) => {
            proof {
                assert forall|g: Glif<PD>| !is_glyph_el(*t, g) by {}
            }
            return Err(er);
        },
    };
    let note = match read_note(c2) {
        Ok(v) => v,
        Err(er) => {
            proof {
                assert forall|g: Glif<PD>| !is_glyph_el(*t, g) by {}
            }
            return Err(er);
        },
    };
    let guidelines = match read_guidelines(c3) {
        Ok(v) => v,
        Err(er) => {
            proof {
                assert forall|g: Glif<PD>| !is_glyph_el(*t, g) by {}
            }
            return Err(er);
        },
    };
    let anchors = match read_anchors(c4) {
        Ok(v) => v,
        Err(er) => {
            proof {
                assert forall|g: Glif<PD>| !is_glyph_el(*t, g) by {}
            }
            return Err(er);
        },
    };
    let images = match read_images(c5) {
        Ok(v) => v,
        Err(er) => {
            proof {
                assert forall|g: Glif<PD>| !is_glyph_el(*t, g) by {}
            }
            return Err(er);
        },
    };
    let (order, outline) = match read_outline(c6) {
        Ok(v) => v,
        Err(er) => {
            proof {
                assert forall|g: Glif<PD>| !is_glyph_el(*t, g) by {}
            }
            return Err(er);
        },
    };
    let components = match read_components(c7) {
        Ok(v) => v,
        Err(er) => {
            proof {
                assert forall|g: Glif<PD>| !is_glyph_el(*t, g) by {}
            }
            return Err(er);
        },
    };
    let lib = match read_lib(c8) {
        Ok(v) => v,
        Err(er) => {
            proof {
                assert forall|g: Glif<PD>| !is_glyph_el(*t, g) by {}
            }
            return Err(er);
        },
    };
    let (private_lib_root, private_lib) = match read_private(c9) {
        Ok(v) => v,
        Err(er) => {
            proof {
                assert forall|g: Glif<PD>| !is_glyph_el(*t, g) by {}
            }
            return Err(er);
        },
    };
    Ok(
        Glif {
            outline,
            order,
            anchors,
            components,
            guidelines,
            images,
            width,
            unicode,
            name: t.attrs[0].1.clone(),
            note,
            format: format_u64 as u8,
            filename: None,
            lib,
            private_lib,
            private_lib_root,
        },
    )
}


/// Whether two optional strings hold the same text.
pub open spec fn opt_str_matches(a: Option<String>, b: Option<String>) -> bool {
    match (a, b) {
        (None, None) => true,
        (Some(x), Some(y)) => x@ == y@,
        _ => false,
    }
}

/// Whether two optional metadata trees match structurally.
pub open spec fn opt_tree_matches(a: Option<XmlElement>, b: Option<XmlElement>) -> bool {
    match (a, b) {
        (None, None) => true,
        (Some(x), Some(y)) => element_matches(x, y),
        _ => false,
    }
}

/// Whether two guidelines hold the same content.
pub open spec fn guideline_matches(a: Guideline, b: Guideline) -> bool {
    a.x == b.x && a.y == b.y && a.angle == b.angle && opt_str_matches(a.name, b.name)
}

/// Whether two anchors hold the same content.
pub open spec fn anchor_matches(a: Anchor, b: Anchor) -> bool {
    a.x == b.x && a.y == b.y && a.class@ == b.class@ && a.kind == b.kind
}

/// Whether two image references hold the same content.
pub open spec fn image_matches(a: GlifImage, b: GlifImage) -> bool {
    a.filename@ == b.filename@ && a.transform == b.transform
}

/// Whether two component references hold the same content.
pub open spec fn component_matches(a: GlifComponent, b: GlifComponent) -> bool {
    &&& a.base@ == b.base@
    &&& a.transform == b.transform
    &&& (match (a.anchor_binding, b.anchor_binding) {
        (None, None) => true,
        (Some(x), Some(y)) => x.0@ == y.0@ && x.1@ == y.1@,
        _ => false,
    })
}

/// Whether two glyphs hold the same content on every field this codec
/// stores.
pub open spec fn glif_matches<PD: PointData>(a: Glif<PD>, b: Glif<PD>) -> bool {
    &&& a.name@ == b.name@
    &&& a.format == b.format
    &&& a.width == b.width
    &&& a.order == b.order
    &&& a.unicode@ == b.unicode@
    &&& opt_str_matches(a.note, b.note)
    &&& (match (a.outline, b.outline) {
        (None, None) => true,
        (Some(x), Some(y)) => x@.len() == y@.len() && (forall|i: int|
            0 <= i < x@.len() ==> contour_matches(#[trigger] x@[i]@, y@[i]@)),
        _ => false,
    })
    &&& a.guidelines@.len() == b.guidelines@.len()
    &&& (forall|j: int|
        0 <= j < a.guidelines@.len() ==> guideline_matches(
            #[trigger] a.guidelines@[j],
            b.guidelines@[j],
        ))
    &&& a.anchors@.len() == b.anchors@.len()
    &&& (forall|j: int|
        0 <= j < a.anchors@.len() ==> anchor_matches(#[trigger] a.anchors@[j], b.anchors@[j]))
    &&& a.images@.len() == b.images@.len()
    &&& (forall|j: int|
        0 <= j < a.images@.len() ==> image_matches(#[trigger] a.images@[j], b.images@[j]))
    &&& a.components@.len() == b.components@.len()
    &&& (forall|j: int|
        0 <= j < a.components@.len() ==> component_matches(
            #[trigger] a.components@[j],
            b.components@[j],
        ))
    &&& opt_tree_matches(a.lib, b.lib)
    &&& opt_tree_matches(a.private_lib, b.private_lib)
    &&& a.private_lib_root@ == b.private_lib_root@
    &&& a.filename is None
    &&& b.filename is None
}

/// Structural matching of metadata trees is transitive.
pub proof fn lemma_element_matches_trans(a: XmlElement, b: XmlElement, c: XmlElement)
    requires
        element_matches(a, b),
        element_matches(b, c),
    ensures
        element_matches(a, c),
    decreases a,
{
    assert forall|i: int| 0 <= i < a.children@.len() implies crate::xml::node_matches(
        #[trigger] a.children@[i],
        c.children@[i],
    ) by {
        lemma_node_matches_trans(a.children@[i], b.children@[i], c.children@[i]);
    }
}

/// Structural matching of tree nodes is transitive.
pub proof fn lemma_node_matches_trans(a: XmlNode, b: XmlNode, c: XmlNode)
    requires
        crate::xml::node_matches(a, b),
        crate::xml::node_matches(b, c),
    ensures
        crate::xml::node_matches(a, c),
    decreases a,
{
    match (a, b, c) {
        (XmlNode::Element(x), XmlNode::Element(y), XmlNode::Element(z)) => {
            lemma_element_matches_trans(x, y, z);
        },
        _ => (),
    }
}

/// Filtering keeps every point of a contour whose points are all writable.
proof fn lemma_filter_all_written<PD: PointData>(c: Seq<Point<PD>>)
    requires
        forall|j: int| 0 <= j < c.len() ==> spec_should_write((#[trigger] c[j]).ptype),
    ensures
        spec_written(c) == c,
    decreases c.len(),
{
    reveal(Seq::filter);
    if c.len() == 0 {
        assert(spec_written(c) =~= c);
    } else {
        lemma_filter_all_written(c.drop_last());
        assert(spec_written(c) =~= c);
    }
}

/// Round trip: reading back the written tree of a normalized glyph
/// reproduces the glyph on every field this codec stores. Together with the
/// contracts of `write_ufo_glif` and `read_ufo_glif`, writing a glyph and
/// reading the result back always succeeds and gives a matching glyph.
pub proof fn lemma_write_read_round_trip<PD: PointData>(g: Glif<PD>, t: XmlElement, g2: Glif<PD>)
    requires
        normalized(g),
        is_glyph_el(t, g),
        glyph_decoded(t, g2),
    ensures
        glif_matches(g2, g),
{
    crate::numfmt::lemma_parse_fmt_nat(g.format as u64, 10);
    // advance
    let e0 = t.children@[0]->Element_0;
    match g.width {
        Some(v) => {
            crate::numfmt::lemma_parse_fmt_nat(v, 10);
        },
        None => (),
    }
    // unicode
    let e1 = t.children@[1]->Element_0;
    assert forall|j: int| 0 <= j < g.unicode@.len() implies g2.unicode@[j] == g.unicode@[j] by {
        assert(e1.children@[j] matches XmlNode::Element(x) && attr_is(
            x.attrs@[0],
            "hex"@,
            spec_fmt_nat(g.unicode@[j] as int, 16),
        ));
        crate::numfmt::lemma_parse_fmt_nat(g.unicode@[j] as u64, 16);
    }
    assert(g2.unicode@ =~= g.unicode@);
    // guidelines
    let e3 = t.children@[3]->Element_0;
    assert forall|j: int| 0 <= j < g2.guidelines@.len() implies guideline_matches(
        #[trigger] g2.guidelines@[j],
        g.guidelines@[j],
    ) by {
        assert(e3.children@[j] matches XmlNode::Element(x) && is_guideline_el(
            x,
            g.guidelines@[j],
        ));
        crate::numfmt::lemma_parse_fmt_int(g.guidelines@[j].x, 10);
        crate::numfmt::lemma_parse_fmt_int(g.guidelines@[j].y, 10);
        crate::numfmt::lemma_parse_fmt_int(g.guidelines@[j].angle, 10);
    }
    // anchors
    let e4 = t.children@[4]->Element_0;
    assert forall|j: int| 0 <= j < g2.anchors@.len() implies anchor_matches(
        #[trigger] g2.anchors@[j],
        g.anchors@[j],
    ) by {
        assert(e4.children@[j] matches XmlNode::Element(x) && is_anchor_el(x, g.anchors@[j]));
        crate::numfmt::lemma_parse_fmt_int(g.anchors@[j].x, 10);
        crate::numfmt::lemma_parse_fmt_int(g.anchors@[j].y, 10);
    }
    // images
    let e5 = t.children@[5]->Element_0;
    assert forall|j: int| 0 <= j < g2.images@.len() implies image_matches(
        #[trigger] g2.images@[j],
        g.images@[j],
    ) by {
        assert(e5.children@[j] matches XmlNode::Element(x) && is_image_el(x, g.images@[j]));
        crate::numfmt::lemma_parse_fmt_int(g.images@[j].transform.0, 10);
        crate::numfmt::lemma_parse_fmt_int(g.images@[j].transform.1, 10);
        crate::numfmt::lemma_parse_fmt_int(g.images@[j].transform.2, 10);
        crate::numfmt::lemma_parse_fmt_int(g.images@[j].transform.3, 10);
        crate::numfmt::lemma_parse_fmt_int(g.images@[j].transform.4, 10);
        crate::numfmt::lemma_parse_fmt_int(g.images@[j].transform.5, 10);
    }
    // components
    let e7 = t.children@[7]->Element_0;
    assert forall|j: int| 0 <= j < g2.components@.len() implies component_matches(
        #[trigger] g2.components@[j],
        g.components@[j],
    ) by {
        assert(e7.children@[j] matches XmlNode::Element(x) && is_component_el(
            x,
            g.components@[j],
        ));
        crate::numfmt::lemma_parse_fmt_int(g.components@[j].transform.0, 10);
        crate::numfmt::lemma_parse_fmt_int(g.components@[j].transform.1, 10);
        crate::numfmt::lemma_parse_fmt_int(g.components@[j].transform.2, 10);
        crate::numfmt::lemma_parse_fmt_int(g.components@[j].transform.3, 10);
        crate::numfmt::lemma_parse_fmt_int(g.components@[j].transform.4, 10);
        crate::numfmt::lemma_parse_fmt_int(g.components@[j].transform.5, 10);
    }
    // outline and order
    let e6 = t.children@[6]->Element_0;
    lemma_order_round_trip(g.order);
    match (g2.outline, g.outline) {
        (Some(o2), Some(o)) => {
            let w = e6.children@[0]->Element_0;
            assert forall|i: int| 0 <= i < o2@.len() implies contour_matches(
                #[trigger] o2@[i]@,
                o@[i]@,
            ) by {
                assert(w.children@[i] matches XmlNode::Element(ce) && is_contour_el(ce, o@[i]@));
                let ce = w.children@[i]->Element_0;
                assert(contour_decoded(ce, crate::flatten::contours_view(o2@)[i]));
                assert(crate::flatten::contours_view(o2@)[i] == o2@[i]@);
                lemma_contour_round_trip(o@[i]@, ce, o2@[i]@);
                lemma_filter_all_written(o@[i]@);
            }
        },
        (None, None) => (),
        (Some(o2), None) => {
            assert(e6.children@.len() == 0);
            assert(false);
        },
        (None, Some(o)) => {
            assert(e6.children@.len() == 1);
            assert(false);
        },
    }
    // metadata trees
    let e8 = t.children@[8]->Element_0;
    match (g2.lib, g.lib) {
        (Some(l2), Some(l)) => {
            let inner = e8.children@[0]->Element_0;
            lemma_element_matches_trans(l2, inner, l);
        },
        (None, None) => (),
        (Some(l2), None) => {
            assert(false);
        },
        (None, Some(l)) => {
            assert(false);
        },
    }
    let e9 = t.children@[9]->Element_0;
    match (g2.private_lib, g.private_lib) {
        (Some(l2), Some(l)) => {
            let inner = e9.children@[0]->Element_0;
            lemma_element_matches_trans(l2, inner, l);
        },
        (None, None) => (),
        (Some(l2), None) => {
            assert(false);
        },
        (None, Some(l)) => {
            assert(false);
        },
    }
}

} // verus!
