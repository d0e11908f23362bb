use glifparser::anchor::Anchor;
use glifparser::anchor::AnchorType;
use glifparser::component::GlifComponent;
use glifparser::error::GlifParserError;
use glifparser::glif::Glif;
use glifparser::guideline::Guideline;
use glifparser::image::GlifImage;
use glifparser::matrix::GlifMatrix;
use glifparser::point::Handle;
use glifparser::point::GlifPoint;
use glifparser::point::Point;
use glifparser::point::PointType;
use glifparser::point::WhichHandle;

#[test]
fn new_point_has_colocated_handles_and_undefined_type() {
    let p: Point<()> = Point::new();
    assert_eq!(p.x, 0);
    assert_eq!(p.y, 0);
    assert_eq!(p.a, Handle::Colocated);
    assert_eq!(p.b, Handle::Colocated);
    assert_eq!(p.name, None);
    assert_eq!(p.ptype, PointType::Undefined);
    assert!(p.data.is_none());
}

#[test]
fn handle_or_colocated_returns_own_position_when_colocated() {
    let p: Point<()> = Point::from_x_y_type((7, -3), PointType::Move);
    let id = |v: i64| v;
    assert_eq!(p.handle_or_colocated(WhichHandle::A, id, id), (7, -3));
    assert_eq!(p.handle_or_colocated(WhichHandle::B, id, id), (7, -3));
    assert_eq!(p.handle_or_colocated(WhichHandle::Neither, id, id), (7, -3));
}

#[test]
fn handle_or_colocated_uses_handle_position_and_transforms() {
    let p: Point<()> =
        Point::from_x_y_a_b_type((1, 2), (Handle::At(10, 20), Handle::Colocated), PointType::Curve);
    let double = |v: i64| v * 2;
    assert_eq!(p.handle_or_colocated(WhichHandle::A, double, double), (20, 40));
    assert_eq!(p.handle_or_colocated(WhichHandle::B, double, double), (2, 4));
}

#[test]
fn handle_neither_selector_degrades_to_colocated() {
    let p: Point<()> =
        Point::from_x_y_a_b_type((1, 2), (Handle::At(10, 20), Handle::At(30, 40)), PointType::Curve);
    assert_eq!(p.handle(WhichHandle::Neither), Handle::Colocated);
    assert_eq!(p.handle(WhichHandle::A), Handle::At(10, 20));
    assert_eq!(p.handle(WhichHandle::B), Handle::At(30, 40));
}

#[test]
fn set_handle_neither_leaves_point_unchanged() {
    let mut p: Point<()> = Point::from_x_y_type((5, 5), PointType::Line);
    p.set_handle(WhichHandle::Neither, Handle::At(1, 1));
    assert_eq!(p.a, Handle::Colocated);
    assert_eq!(p.b, Handle::Colocated);
    p.set_handle(WhichHandle::A, Handle::At(1, 1));
    assert_eq!(p.a, Handle::At(1, 1));
    p.set_handle(WhichHandle::B, Handle::At(2, 2));
    assert_eq!(p.b, Handle::At(2, 2));
}

#[test]
fn point_type_tokens_parse_case_sensitively() {
    assert_eq!(PointType::from_token("move"), PointType::Move);
    assert_eq!(PointType::from_token("line"), PointType::Line);
    assert_eq!(PointType::from_token("qcurve"), PointType::QCurve);
    assert_eq!(PointType::from_token("curve"), PointType::Curve);
    assert_eq!(PointType::from_token("offcurve"), PointType::OffCurve);
    assert_eq!(PointType::from_token(""), PointType::OffCurve);
    assert_eq!(PointType::from_token("Move"), PointType::OffCurve);
    assert_eq!(PointType::from_token("qclose"), PointType::OffCurve);
}

#[test]
fn point_type_should_write_filters_undefined_and_legacy_close() {
    assert!(!PointType::Undefined.should_write_to_ufo());
    assert!(!PointType::QClose.should_write_to_ufo());
    assert!(PointType::Move.should_write_to_ufo());
    assert!(PointType::Line.should_write_to_ufo());
    assert!(PointType::Curve.should_write_to_ufo());
    assert!(PointType::QCurve.should_write_to_ufo());
    assert!(PointType::OffCurve.should_write_to_ufo());
}

#[test]
fn which_handle_tokens() {
    assert_eq!(WhichHandle::from_token("A"), WhichHandle::A);
    assert_eq!(WhichHandle::from_token("a"), WhichHandle::A);
    assert_eq!(WhichHandle::from_token("B"), WhichHandle::B);
    assert_eq!(WhichHandle::from_token("b"), WhichHandle::B);
    assert_eq!(WhichHandle::from_token("c"), WhichHandle::Neither);
}

#[test]
fn which_handle_tokens_ignore_surrounding_whitespace() {
    assert_eq!(WhichHandle::from_token(" a"), WhichHandle::A);
    assert_eq!(WhichHandle::from_token("\tB\n"), WhichHandle::B);
    assert_eq!(WhichHandle::from_token("  A  "), WhichHandle::A);
    assert_eq!(WhichHandle::from_token(" "), WhichHandle::Neither);
    assert_eq!(WhichHandle::from_token("a b"), WhichHandle::Neither);
}

#[test]
fn which_handle_tokens_ignore_unicode_whitespace() {
    assert_eq!(WhichHandle::from_token("\u{2009}A"), WhichHandle::A);
    assert_eq!(WhichHandle::from_token("\u{3000}b\u{A0}"), WhichHandle::B);
    assert_eq!(WhichHandle::from_token("\u{85}a\u{2028}"), WhichHandle::A);
    assert_eq!(WhichHandle::from_token("\u{1680}\u{205F}"), WhichHandle::Neither);
}

#[test]
fn handle_from_glif_point() {
    let mut gp = GlifPoint::new();
    gp.x = 4;
    gp.y = 9;
    assert_eq!(Handle::from_glif_point(Some(&gp)), Handle::At(4, 9));
    assert_eq!(Handle::from_glif_point(None), Handle::Colocated);
}

#[test]
fn anchor_new_defaults() {
    let a = Anchor::new();
    assert_eq!(a.x, 0);
    assert_eq!(a.y, 0);
    assert_eq!(a.class, String::new());
    assert_eq!(a.kind, AnchorType::Undefined);
}

#[test]
fn entity_defaults() {
    let gl = Guideline::new();
    assert_eq!((gl.x, gl.y, gl.angle), (0, 0, 0));
    assert!(gl.name.is_none());
    let im = GlifImage::new();
    assert_eq!(im.filename, String::new());
    assert_eq!(im.transform, GlifMatrix(1, 0, 0, 1, 0, 0));
    let c = GlifComponent::new();
    assert_eq!(c.base, String::new());
    assert_eq!(c.transform, GlifMatrix(1, 0, 0, 1, 0, 0));
    assert!(c.anchor_binding.is_none());
}

#[test]
fn glif_new_defaults() {
    let g: Glif<()> = Glif::new();
    assert!(g.outline.is_none());
    assert!(g.components.is_empty());
    assert!(g.anchors.is_empty());
    assert!(g.width.is_none());
    assert!(g.unicode.is_empty());
    assert_eq!(g.name, String::new());
    assert_eq!(g.format, 2);
    assert!(g.filename.is_none());
    assert!(g.lib.is_none());
    assert!(g.private_lib.is_none());
    assert_eq!(g.private_lib_root, "MFEK");
}

#[test]
fn name_to_filename_inserts_separator_before_uppercase() {
    let mut g: Glif<()> = Glif::new();
    g.name = "Alpha".to_string();
    assert_eq!(g.name_to_filename(), "_Alpha.glif");
    g.name = "aZb".to_string();
    assert_eq!(g.name_to_filename(), "a_Zb.glif");
    g.name = "plain".to_string();
    assert_eq!(g.name_to_filename(), "plain.glif");
    g.name = String::new();
    assert_eq!(g.name_to_filename(), ".glif");
}

#[test]
fn name_to_filename_adds_no_double_separator_without_uppercase() {
    let mut g: Glif<()> = Glif::new();
    g.name = "a_b".to_string();
    let f = g.name_to_filename();
    assert_eq!(f, "a_b.glif");
    assert!(!f.contains("__"));
}

#[test]
fn name_to_filename_is_stable() {
    let mut g: Glif<()> = Glif::new();
    g.name = "Stable".to_string();
    assert_eq!(g.name_to_filename(), g.name_to_filename());
}

#[test]
fn filename_is_sane_matches() {
    let mut g: Glif<()> = Glif::new();
    g.name = "hello".to_string();
    g.filename = Some("some/dir/hello.glif".to_string());
    assert_eq!(g.filename_is_sane(), Ok(true));
    g.filename = Some("hello.glif".to_string());
    assert_eq!(g.filename_is_sane(), Ok(true));
}

#[test]
fn filename_is_sane_reports_each_cause() {
    let mut g: Glif<()> = Glif::new();
    g.name = "hello".to_string();
    match g.filename_is_sane() {
        Err(GlifParserError::GlifFilenameInsane(m)) => {
            assert_eq!(m, "Glif file name is not set")
        },
        other => panic!("expected the not-set failure, got {:?}", other),
    }
    g.filename = Some("some/dir/".to_string());
    match g.filename_is_sane() {
        Err(GlifParserError::GlifFilenameInsane(m)) => {
            assert_eq!(m, "Glif file name is directory")
        },
        other => panic!("expected the directory failure, got {:?}", other),
    }
    g.filename = Some("other.glif".to_string());
    match g.filename_is_sane() {
        Err(GlifParserError::GlifFilenameInsane(m)) => {
            assert_eq!(m, "Glif file name does not match the glyph name")
        },
        other => panic!("expected the mismatch failure, got {:?}", other),
    }
}

#[test]
fn error_messages_name_the_failure() {
    let e = GlifParserError::XmlParseError("bad".to_string());
    assert_eq!(e.message(), "Glif parse error: bad");
    let e = GlifParserError::UnresolvedComponent("dot".to_string());
    assert_eq!(e.message(), "Unresolved component: dot");
    let e = GlifParserError::CyclicComponentReference(vec!["a".to_string()]);
    assert_eq!(e.message(), "Cyclic component reference");
    let e = GlifParserError::GlifFilenameInsane("why".to_string());
    assert_eq!(e.message(), "Glif filename insane: why");
}

#[test]
fn matrix_apply_and_compose() {
    let t = GlifMatrix::translation(10, 0);
    assert_eq!(t.apply(0, 0), (10, 0));
    let s = GlifMatrix(2, 0, 0, 2, 0, 0);
    assert_eq!(s.apply(3, 4), (6, 8));
    // scale after translate: point moves first, then doubles
    let c = s.compose(&t);
    assert_eq!(c.apply(1, 1), (22, 2));
    // translate after scale
    let c2 = t.compose(&s);
    assert_eq!(c2.apply(1, 1), (12, 2));
    let id = GlifMatrix::identity();
    assert_eq!(id.compose(&t), t);
    assert_eq!(t.apply(i64::MAX, 0).0, i64::MIN + 9);
}
