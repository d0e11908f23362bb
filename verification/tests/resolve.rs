use glifparser::component::GlifComponent;
use glifparser::error::GlifParserError;
use glifparser::flatten::resolve_component;
use glifparser::glif::Glif;
use glifparser::matrix::GlifMatrix;
use glifparser::point::Point;
use glifparser::point::PointType;

fn dot_at(name: &str, x: i64, y: i64) -> Glif<()> {
    let mut g: Glif<()> = Glif::new();
    g.name = name.to_string();
    g.outline = Some(vec![vec![Point::from_x_y_type((x, y), PointType::Move)]]);
    g
}

fn composite(name: &str, base: &str, dx: i64, dy: i64) -> Glif<()> {
    let mut g: Glif<()> = Glif::new();
    g.name = name.to_string();
    let mut c = GlifComponent::new();
    c.base = base.to_string();
    c.transform = GlifMatrix::translation(dx, dy);
    g.components.push(c);
    g
}

#[test]
fn flatten_composes_nested_transforms() {
    // base glyph "dot" is a single point at the origin; "ddot" places it
    // moved by (10, 0); "tripledot" places "ddot" moved by (0, 10); the dot
    // must land at (10, 10).
    let store = vec![
        dot_at("dot", 0, 0),
        composite("ddot", "dot", 10, 0),
        composite("tripledot", "ddot", 0, 10),
    ];
    let out = store[2].flatten(&store).unwrap();
    assert_eq!(out.len(), 1);
    assert_eq!(out[0].len(), 1);
    assert_eq!(out[0][0].x, 10);
    assert_eq!(out[0][0].y, 10);
    assert_eq!(out[0][0].ptype, PointType::Move);
}

#[test]
fn flatten_preserves_declaration_order() {
    let mut g: Glif<()> = Glif::new();
    g.name = "pair".to_string();
    let mut ca = GlifComponent::new();
    ca.base = "a".to_string();
    let mut cb = GlifComponent::new();
    cb.base = "b".to_string();
    g.components.push(ca);
    g.components.push(cb);
    let store = vec![dot_at("a", 1, 1), dot_at("b", 2, 2), g];
    let out = store[2].flatten(&store).unwrap();
    assert_eq!(out.len(), 2);
    assert_eq!((out[0][0].x, out[0][0].y), (1, 1));
    assert_eq!((out[1][0].x, out[1][0].y), (2, 2));
}

#[test]
fn flatten_appends_components_after_own_outline() {
    let mut g = dot_at("own", 5, 5);
    let mut c = GlifComponent::new();
    c.base = "dot".to_string();
    g.components.push(c);
    let store = vec![dot_at("dot", 7, 7), g];
    let out = store[1].flatten(&store).unwrap();
    assert_eq!(out.len(), 2);
    assert_eq!((out[0][0].x, out[0][0].y), (5, 5));
    assert_eq!((out[1][0].x, out[1][0].y), (7, 7));
}

#[test]
fn flatten_detects_self_reference_cycle() {
    let g = composite("selfie", "selfie", 0, 0);
    let store = vec![g];
    match store[0].flatten(&store) {
        Err(GlifParserError::CyclicComponentReference(path)) => {
            assert_eq!(path, vec!["selfie".to_string(), "selfie".to_string()]);
        },
        other => panic!("expected a cycle, got {:?}", other),
    }
}

#[test]
fn flatten_detects_two_glyph_cycle() {
    let a = composite("a", "b", 0, 0);
    let b = composite("b", "a", 0, 0);
    let store = vec![a, b];
    match store[0].flatten(&store) {
        Err(GlifParserError::CyclicComponentReference(path)) => {
            assert_eq!(path, vec!["a".to_string(), "b".to_string(), "a".to_string()]);
        },
        other => panic!("expected a cycle, got {:?}", other),
    }
}

#[test]
fn flatten_detects_three_glyph_cycle() {
    let a = composite("a", "b", 0, 0);
    let b = composite("b", "c", 0, 0);
    let c = composite("c", "a", 0, 0);
    let store = vec![a, b, c];
    match store[0].flatten(&store) {
        Err(GlifParserError::CyclicComponentReference(path)) => {
            assert_eq!(
                path,
                vec![
                    "a".to_string(),
                    "b".to_string(),
                    "c".to_string(),
                    "a".to_string()
                ]
            );
        },
        other => panic!("expected a cycle, got {:?}", other),
    }
}

#[test]
fn flatten_detects_cycle_through_a_later_component() {
    // the first component resolves; the second loops back to the glyph itself
    let mut g = composite("loopy", "dot", 0, 0);
    let mut back = GlifComponent::new();
    back.base = "loopy".to_string();
    g.components.push(back);
    let store = vec![dot_at("dot", 0, 0), g];
    match store[1].flatten(&store) {
        Err(GlifParserError::CyclicComponentReference(path)) => {
            assert_eq!(path, vec!["loopy".to_string(), "loopy".to_string()]);
        },
        other => panic!("expected a cycle, got {:?}", other),
    }
}

#[test]
fn flatten_reports_missing_base_glyph() {
    let g = composite("lonely", "ghost", 0, 0);
    let store = vec![g];
    match store[0].flatten(&store) {
        Err(GlifParserError::UnresolvedComponent(name)) => assert_eq!(name, "ghost"),
        other => panic!("expected unresolved, got {:?}", other),
    }
}

#[test]
fn failed_resolution_reports_first_failure_in_order() {
    // the first component is missing, the second would resolve; the miss wins
    let mut g: Glif<()> = Glif::new();
    g.name = "g".to_string();
    let mut c1 = GlifComponent::new();
    c1.base = "missing".to_string();
    let mut c2 = GlifComponent::new();
    c2.base = "dot".to_string();
    g.components.push(c1);
    g.components.push(c2);
    let store = vec![dot_at("dot", 0, 0), g];
    match store[1].flatten(&store) {
        Err(GlifParserError::UnresolvedComponent(name)) => assert_eq!(name, "missing"),
        other => panic!("expected unresolved, got {:?}", other),
    }
}

#[test]
fn resolve_component_alone() {
    let mut c = GlifComponent::new();
    c.base = "dot".to_string();
    c.transform = GlifMatrix::translation(3, 4);
    let store = vec![dot_at("dot", 1, 1)];
    let visited: Vec<String> = Vec::new();
    let out = resolve_component(&c, &store, &visited).unwrap();
    assert_eq!((out[0][0].x, out[0][0].y), (4, 5));
}

#[test]
fn flatten_transforms_handles_with_the_points() {
    let mut base: Glif<()> = Glif::new();
    base.name = "curvy".to_string();
    base.outline = Some(vec![vec![Point::from_x_y_a_b_type(
        (0, 0),
        (
            glifparser::point::Handle::At(1, 2),
            glifparser::point::Handle::Colocated,
        ),
        PointType::Curve,
    )]]);
    let user = composite("user", "curvy", 100, 0);
    let store = vec![base, user];
    let out = store[1].flatten(&store).unwrap();
    assert_eq!((out[0][0].x, out[0][0].y), (100, 0));
    assert_eq!(out[0][0].a, glifparser::point::Handle::At(101, 2));
    assert_eq!(out[0][0].b, glifparser::point::Handle::Colocated);
}
