use glifparser::anchor::Anchor;
use glifparser::anchor::AnchorType;
use glifparser::codec::read_ufo_glif;
use glifparser::codec::write_ufo_glif;
use glifparser::component::GlifComponent;
use glifparser::glif::Glif;
use glifparser::guideline::Guideline;
use glifparser::image::GlifImage;
use glifparser::matrix::GlifMatrix;
use glifparser::numfmt::fmt_i64_radix;
use glifparser::numfmt::fmt_u64_radix;
use glifparser::numfmt::parse_i64_radix;
use glifparser::numfmt::parse_u64_radix;
use glifparser::outline::OutlineType;
use glifparser::point::Handle;
use glifparser::point::Point;
use glifparser::point::PointType;
use glifparser::xml::XmlElement;
use glifparser::xml::XmlNode;

#[test]
fn number_rendering_round_trips() {
    assert_eq!(fmt_i64_radix(-42, 10), "-42");
    assert_eq!(fmt_i64_radix(0, 10), "0");
    assert_eq!(fmt_u64_radix(0x41, 16), "41");
    assert_eq!(fmt_u64_radix(255, 16), "FF");
    assert_eq!(parse_i64_radix("-42", 10), Some(-42));
    assert_eq!(parse_u64_radix("FF", 16), Some(255));
    assert_eq!(parse_u64_radix("", 10), None);
    assert_eq!(parse_u64_radix("12x", 10), None);
    assert_eq!(parse_i64_radix(&fmt_i64_radix(i64::MIN, 10), 10), Some(i64::MIN));
    assert_eq!(parse_i64_radix(&fmt_i64_radix(i64::MAX, 10), 10), Some(i64::MAX));
    assert_eq!(parse_u64_radix(&fmt_u64_radix(u64::MAX, 10), 10), Some(u64::MAX));
}

#[test]
fn write_filters_unwritable_point_types() {
    // a contour holding one move, one undefined, and one legacy-close point
    // serializes with exactly the move point emitted
    let mut g: Glif<()> = Glif::new();
    g.name = "f".to_string();
    g.outline = Some(vec![vec![
        Point::from_x_y_type((1, 2), PointType::Move),
        Point::from_x_y_type((3, 4), PointType::Undefined),
        Point::from_x_y_type((5, 6), PointType::QClose),
    ]]);
    let tree = write_ufo_glif(&g);
    // child 6 is the outline section; its only child wraps the contours
    let outline_el = match &tree.children[6] {
        XmlNode::Element(e) => e,
        other => panic!("expected outline element, got {:?}", other),
    };
    let contours_el = match &outline_el.children[0] {
        XmlNode::Element(e) => e,
        other => panic!("expected contours wrapper, got {:?}", other),
    };
    let contour_el = match &contours_el.children[0] {
        XmlNode::Element(e) => e,
        other => panic!("expected a contour, got {:?}", other),
    };
    assert_eq!(contour_el.children.len(), 1);
    let point_el = match &contour_el.children[0] {
        XmlNode::Element(e) => e,
        other => panic!("expected a point, got {:?}", other),
    };
    assert_eq!(point_el.attrs[2], ("type".to_string(), "move".to_string()));
    assert_eq!(point_el.attrs[0], ("x".to_string(), "1".to_string()));
}

fn full_glyph() -> Glif<()> {
    let mut g: Glif<()> = Glif::new();
    g.name = "Adieresis".to_string();
    g.format = 2;
    g.width = Some(650);
    g.unicode = vec![0xC4, 0x1E000];
    g.note = Some("a note".to_string());
    g.order = OutlineType::Quadratic;
    g.outline = Some(vec![
        vec![
            Point::from_x_y_type((10, 20), PointType::Move),
            Point::from_fields(
                (30, 40),
                (Handle::At(25, 35), Handle::Colocated),
                PointType::Curve,
                Some("apex".to_string()),
                None,
            ),
        ],
        vec![],
    ]);
    let mut comp = GlifComponent::new();
    comp.base = "dieresis".to_string();
    comp.transform = GlifMatrix(1, 0, 0, 1, 120, 340);
    comp.anchor_binding = Some(("top".to_string(), "top_d".to_string()));
    g.components.push(comp);
    let mut anchor = Anchor::new();
    anchor.x = 12;
    anchor.y = -7;
    anchor.class = "top".to_string();
    g.anchors.push(anchor);
    g.guidelines.push(Guideline { x: 0, y: 500, angle: 0, name: Some("cap".to_string()) });
    g.images.push(GlifImage {
        filename: "bg.png".to_string(),
        transform: GlifMatrix(1, 0, 0, 1, -5, -6),
    });
    let mut lib = XmlElement::named("lib".to_string());
    lib.attrs.push(("k".to_string(), "v".to_string()));
    lib.children.push(XmlNode::Text("payload".to_string()));
    let mut inner = XmlElement::named("deep".to_string());
    inner.children.push(XmlNode::Comment("kept".to_string()));
    lib.children.push(XmlNode::Element(inner));
    g.lib = Some(lib);
    let mut private = XmlElement::named("MFEK".to_string());
    private.children.push(XmlNode::CData("blob".to_string()));
    g.private_lib = Some(private);
    g
}

fn assert_tree_eq(a: &XmlElement, b: &XmlElement) {
    assert_eq!(a.name, b.name);
    assert_eq!(a.attrs, b.attrs);
    assert_eq!(a.children.len(), b.children.len());
    for (x, y) in a.children.iter().zip(b.children.iter()) {
        match (x, y) {
            (XmlNode::Element(ea), XmlNode::Element(eb)) => assert_tree_eq(ea, eb),
            (XmlNode::Text(ta), XmlNode::Text(tb)) => assert_eq!(ta, tb),
            (XmlNode::Comment(ta), XmlNode::Comment(tb)) => assert_eq!(ta, tb),
            (XmlNode::CData(ta), XmlNode::CData(tb)) => assert_eq!(ta, tb),
            other => panic!("node kinds differ: {:?}", other),
        }
    }
}

#[test]
fn write_then_read_reproduces_the_glyph() {
    let g = full_glyph();
    let tree = write_ufo_glif(&g);
    let g2: Glif<()> = read_ufo_glif(&tree).expect("written glyph must read back");
    assert_eq!(g2.name, g.name);
    assert_eq!(g2.format, g.format);
    assert_eq!(g2.width, g.width);
    assert_eq!(g2.unicode, g.unicode);
    assert_eq!(g2.note, g.note);
    assert_eq!(g2.order, g.order);
    assert_eq!(g2.outline, g.outline);
    assert_eq!(g2.components, g.components);
    assert_eq!(g2.anchors, g.anchors);
    assert_eq!(g2.guidelines, g.guidelines);
    assert_eq!(g2.images, g.images);
    assert_eq!(g2.filename, None);
    assert_eq!(g2.private_lib_root, "MFEK");
    assert_tree_eq(g2.lib.as_ref().unwrap(), g.lib.as_ref().unwrap());
    assert_tree_eq(g2.private_lib.as_ref().unwrap(), g.private_lib.as_ref().unwrap());
}

#[test]
fn write_then_read_round_trips_an_empty_glyph() {
    let mut g: Glif<()> = Glif::new();
    g.name = "space".to_string();
    let tree = write_ufo_glif(&g);
    let g2: Glif<()> = read_ufo_glif(&tree).expect("written glyph must read back");
    assert_eq!(g2.name, "space");
    assert!(g2.outline.is_none());
    assert_eq!(g2.order, OutlineType::Cubic);
    assert!(g2.components.is_empty());
    assert!(g2.lib.is_none());
    assert_eq!(g2.private_lib_root, "MFEK");
}

#[test]
fn empty_contour_round_trips_as_zero_points() {
    let mut g: Glif<()> = Glif::new();
    g.name = "e".to_string();
    g.outline = Some(vec![vec![]]);
    let tree = write_ufo_glif(&g);
    let g2: Glif<()> = read_ufo_glif(&tree).expect("written glyph must read back");
    assert_eq!(g2.outline, Some(vec![vec![]]));
}

#[test]
fn anchor_kind_is_undefined_after_reading() {
    let mut g: Glif<()> = Glif::new();
    g.name = "a".to_string();
    let mut anchor = Anchor::new();
    anchor.class = "top".to_string();
    g.anchors.push(anchor);
    let tree = write_ufo_glif(&g);
    let g2: Glif<()> = read_ufo_glif(&tree).expect("written glyph must read back");
    assert_eq!(g2.anchors[0].kind, AnchorType::Undefined);
}

#[test]
fn read_rejects_a_malformed_tree() {
    let bad = XmlElement::named("notaglyph".to_string());
    assert!(read_ufo_glif::<()>(&bad).is_err());
    let mut half = XmlElement::named("glyph".to_string());
    half.attrs.push(("name".to_string(), "x".to_string()));
    half.attrs.push(("format".to_string(), "two".to_string()));
    assert!(read_ufo_glif::<()>(&half).is_err());
}

#[test]
fn components_are_written_unresolved() {
    let mut g: Glif<()> = Glif::new();
    g.name = "u".to_string();
    let mut comp = GlifComponent::new();
    comp.base = "other".to_string();
    g.components.push(comp);
    let tree = write_ufo_glif(&g);
    let comp_section = match &tree.children[7] {
        XmlNode::Element(e) => e,
        other => panic!("expected the components section, got {:?}", other),
    };
    assert_eq!(comp_section.children.len(), 1);
    let ce = match &comp_section.children[0] {
        XmlNode::Element(e) => e,
        other => panic!("expected a component, got {:?}", other),
    };
    assert_eq!(ce.attrs[0], ("base".to_string(), "other".to_string()));
}
