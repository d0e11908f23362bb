//! The component resolution engine: turn declarative "draw glyph X,
//! transformed by M" references into concrete transformed geometry, against a
//! caller-supplied store of sibling glyphs, composing transforms through
//! nested references and failing cleanly on unknown names and on reference
//! cycles. Every function here is total: the visitation set threaded through
//! each call bounds the recursion, so resolution terminates on every input,
//! cyclic ones included.

use vstd::prelude::*;
use crate::component::GlifComponent;
use crate::error::GlifParserError;
use crate::glif::Glif;
use crate::matrix::GlifMatrix;
use crate::matrix::lemma_apply_compose;
use crate::outline::Contour;
use crate::outline::Outline;
use crate::point::Handle;
use crate::point::Point;
use crate::point::PointData;
use crate::strutil::str_eq;

verus! {

/// The character sequences of a list of names.
pub open spec fn name_views(v: Seq<String>) -> Seq<Seq<char>> {
    v.map_values(|s: String| s@)
}

/// The names of the glyphs a store holds.
pub open spec fn store_names<PD: PointData>(store: Seq<Glif<PD>>) -> Set<Seq<char>> {
    store.map(|i: int, g: Glif<PD>| g.name@).to_set()
}

/// A well-formed visitation set: visited names are distinct, and every name
/// but the first (the glyph resolution started from, which need not be in
/// the store) names a glyph of the store.
pub open spec fn visited_ok<PD: PointData>(store: Seq<Glif<PD>>, visited: Seq<Seq<char>>) -> bool {
    &&& visited.no_duplicates()
    &&& forall|i: int|
        1 <= i < visited.len() ==> store_names(store).contains(#[trigger] visited[i])
}

/// The first glyph of the store with the given name, if any.
pub open spec fn spec_lookup<PD: PointData>(store: Seq<Glif<PD>>, name: Seq<char>) -> Option<
    Glif<PD>,
>
    decreases store.len(),
{
    if store.len() == 0 {
        None
    } else if store[0].name@ == name {
        Some(store[0])
    } else {
        spec_lookup(store.drop_first(), name)
    }
}

/// A name the lookup finds is a name of the store.
proof fn lemma_lookup_in_names<PD: PointData>(store: Seq<Glif<PD>>, name: Seq<char>)
    requires
        spec_lookup(store, name) is Some,
    ensures
        store_names(store).contains(name),
    decreases store.len(),
{
    let m = store.map(|i: int, g: Glif<PD>| g.name@);
    if store.len() == 0 {
    } else if store[0].name@ == name {
        assert(m[0] == name);
        assert(m.contains(name));
    } else {
        lemma_lookup_in_names(store.drop_first(), name);
        let m2 = store.drop_first().map(|i: int, g: Glif<PD>| g.name@);
        assert(m2.contains(name));
        let j = choose|j: int| 0 <= j < m2.len() && m2[j] == name;
        assert(m[j + 1] == name);
        assert(m.contains(name));
    }
}

/// A well-formed visitation set never outgrows the store by more than its
/// starting name: this bounds the resolution recursion.
pub proof fn lemma_visited_bound<PD: PointData>(store: Seq<Glif<PD>>, visited: Seq<Seq<char>>)
    requires
        visited_ok(store, visited),
    ensures
        visited.len() <= store.len() + 1,
{
    if visited.len() > 0 {
        let rest = visited.drop_first();
        assert(rest.no_duplicates());
        rest.unique_seq_to_set();
        assert forall|x: Seq<char>| rest.to_set().contains(x) implies store_names(
            store,
        ).contains(x) by {
            let j = choose|j: int| 0 <= j < rest.len() && rest[j] == x;
            assert(visited[j + 1] == x);
        }
        let names = store.map(|i: int, g: Glif<PD>| g.name@);
        vstd::seq_lib::seq_to_set_is_finite::<Seq<char>>(names);
        assert(rest.to_set().subset_of(store_names(store)));
        vstd::set_lib::lemma_len_subset(rest.to_set(), store_names(store));
        names.lemma_cardinality_of_set();
    }
}

/// Where a transform sends one handle: a colocated handle stays colocated
/// with its (transformed) owning point, a placed one moves with the
/// transform.
pub open spec fn spec_transform_handle(t: GlifMatrix, h: Handle) -> Handle {
    match h {
        Handle::Colocated => Handle::Colocated,
        Handle::At(x, y) => Handle::At(t.spec_apply_x(x, y), t.spec_apply_y(x, y)),
    }
}

/// Where a transform sends one point. Materialized geometry carries no
/// per-point data: the core ignores the data slot in all algorithms.
pub open spec fn spec_transform_point<PD: PointData>(t: GlifMatrix, p: Point<PD>) -> Point<PD> {
    Point {
        x: t.spec_apply_x(p.x, p.y),
        y: t.spec_apply_y(p.x, p.y),
        a: spec_transform_handle(t, p.a),
        b: spec_transform_handle(t, p.b),
        name: p.name,
        ptype: p.ptype,
        data: None,
    }
}

/// Where a transform sends each point of a contour, in order.
pub open spec fn spec_transform_contour<PD: PointData>(t: GlifMatrix, c: Seq<Point<PD>>) -> Seq<
    Point<PD>,
> {
    c.map_values(|p: Point<PD>| spec_transform_point(t, p))
}

/// Where a transform sends each contour of an outline, in order.
pub open spec fn spec_transform_outline<PD: PointData>(t: GlifMatrix, o: Seq<Seq<Point<PD>>>) -> Seq<
    Seq<Point<PD>>,
> {
    o.map_values(|c: Seq<Point<PD>>| spec_transform_contour(t, c))
}

/// The contours of an exec outline as sequences.
pub open spec fn contours_view<PD: PointData>(o: Seq<Contour<PD>>) -> Seq<Seq<Point<PD>>> {
    o.map_values(|c: Contour<PD>| c@)
}

/// The directly authored geometry of a glyph, or no contours at all.
pub open spec fn spec_own_outline<PD: PointData>(g: Glif<PD>) -> Seq<Seq<Point<PD>>> {
    match g.outline {
        Some(o) => contours_view(o@),
        None => Seq::empty(),
    }
}

/// What resolving produces: concrete geometry, or the name of a base glyph
/// the lookup does not know, or the full path of a reference cycle.
pub enum SpecResolution<PD: PointData> {
    Resolved(Seq<Seq<Point<PD>>>),
    Unresolved(Seq<char>),
    Cyclic(Seq<Seq<char>>),
}

/// Whether an exec resolution result means what the spec-level resolution
/// says.
pub open spec fn resolution_matches<PD: PointData>(
    r: Result<Outline<PD>, GlifParserError>,
    s: SpecResolution<PD>,
) -> bool {
    match s {
        SpecResolution::Resolved(o) => r matches Ok(out) && contours_view(out@) == o,
        SpecResolution::Unresolved(n) => r matches Err(GlifParserError::UnresolvedComponent(m))
            && m@ == n,
        SpecResolution::Cyclic(p) => r matches Err(GlifParserError::CyclicComponentReference(path))
            && name_views(path@) == p,
    }
}

/// Flattening a glyph under an accumulated transform: its own outline,
/// transformed, followed by the geometry of its components in declaration
/// order.
pub open spec fn spec_flatten<PD: PointData>(
    store: Seq<Glif<PD>>,
    g: Glif<PD>,
    visited: Seq<Seq<char>>,
    t: GlifMatrix,
) -> SpecResolution<PD>
    decreases store.len() + 1 - visited.len(), 1int, 0int,
        when visited_ok(store, visited)
{
    match spec_resolve_comps(store, g.components@, visited, t) {
        SpecResolution::Resolved(rest) => SpecResolution::Resolved(
            spec_transform_outline(t, spec_own_outline(g)) + rest,
        ),
        err => err,
    }
}

/// Resolving one component under an accumulated transform: a base name
/// already on the resolution path is a cycle; an unknown one is unresolved;
/// otherwise the base glyph is flattened with the component's transform
/// composed onto the accumulated one, the inner transform applied first.
/// The path-membership test deliberately precedes the lookup: a glyph
/// referencing itself is a cycle of length one and is reported as such even
/// when its own name is not in the store, which is what makes the
/// self-reference guarantee unconditional.
pub open spec fn spec_resolve_component<PD: PointData>(
    store: Seq<Glif<PD>>,
    c: GlifComponent,
    visited: Seq<Seq<char>>,
    t: GlifMatrix,
) -> SpecResolution<PD>
    decreases store.len() + 1 - visited.len(), 0int, 0int,
        when visited_ok(store, visited)
        via spec_resolve_component_decreases::<PD>
{
    if visited.contains(c.base@) {
        SpecResolution::Cyclic(visited.push(c.base@))
    } else {
        match spec_lookup(store, c.base@) {
            None => SpecResolution::Unresolved(c.base@),
            Some(g2) => spec_flatten(
                store,
                g2,
                visited.push(c.base@),
                t.spec_compose(c.transform),
            ),
        }
    }
}

#[via_fn]
proof fn spec_resolve_component_decreases<PD: PointData>(
    store: Seq<Glif<PD>>,
    c: GlifComponent,
    visited: Seq<Seq<char>>,
    t: GlifMatrix,
) {
    if !visited.contains(c.base@) && spec_lookup(store, c.base@) is Some {
        lemma_lookup_in_names(store, c.base@);
        lemma_push_visited_ok(store, visited, c.base@);
        lemma_visited_bound(store, visited.push(c.base@));
    }
}

/// Pushing a base name the lookup found, and that is not already on the
/// path, keeps the visitation set well-formed.
pub proof fn lemma_push_visited_ok<PD: PointData>(
    store: Seq<Glif<PD>>,
    visited: Seq<Seq<char>>,
    name: Seq<char>,
)
    requires
        visited_ok(store, visited),
        !visited.contains(name),
        store_names(store).contains(name),
    ensures
        visited_ok(store, visited.push(name)),
{
    let v2 = visited.push(name);
    assert forall|i: int, j: int| 0 <= i < j < v2.len() implies v2[i] != v2[j] by {
        if j < visited.len() {
        } else {
            assert(v2[j] == name);
            assert(!visited.contains(name));
            assert(visited[i] != name);
        }
    }
}

/// Resolving a list of components in declaration order, appending each
/// component's geometry after the previous one's; the first failure wins.
pub open spec fn spec_resolve_comps<PD: PointData>(
    store: Seq<Glif<PD>>,
    comps: Seq<GlifComponent>,
    visited: Seq<Seq<char>>,
    t: GlifMatrix,
) -> SpecResolution<PD>
    decreases store.len() + 1 - visited.len(), 0int, comps.len() + 1,
        when visited_ok(store, visited)
{
    if comps.len() == 0 {
        SpecResolution::Resolved(Seq::empty())
    } else {
        match spec_resolve_component(store, comps[0], visited, t) {
            SpecResolution::Resolved(sub) => match spec_resolve_comps(
                store,
                comps.drop_first(),
                visited,
                t,
            ) {
                SpecResolution::Resolved(rest) => SpecResolution::Resolved(sub + rest),
                err => err,
            },
            err => err,
        }
    }
}


/// Composing the identity transform with any transform leaves it unchanged.
pub proof fn lemma_identity_compose(t: GlifMatrix)
    ensures
        GlifMatrix::spec_identity().spec_compose(t) == t,
{
    crate::matrix::lemma_wrap_in_range(t.0 as int);
    crate::matrix::lemma_wrap_in_range(t.1 as int);
    crate::matrix::lemma_wrap_in_range(t.2 as int);
    crate::matrix::lemma_wrap_in_range(t.3 as int);
    crate::matrix::lemma_wrap_in_range(t.4 as int);
    crate::matrix::lemma_wrap_in_range(t.5 as int);
}

/// Transform composition acts on points as the two transforms in turn: the
/// composed transform sends a point where the outer transform sends the
/// inner transform's image of it.
pub proof fn lemma_transform_compose_point<PD: PointData>(
    outer: GlifMatrix,
    inner: GlifMatrix,
    p: Point<PD>,
)
    ensures
        spec_transform_point(outer.spec_compose(inner), p) == spec_transform_point(
            outer,
            spec_transform_point(inner, p),
        ),
{
    lemma_apply_compose(outer, inner, p.x, p.y);
    match p.a {
        Handle::At(x, y) => lemma_apply_compose(outer, inner, x, y),
        Handle::Colocated => (),
    }
    match p.b {
        Handle::At(x, y) => lemma_apply_compose(outer, inner, x, y),
        Handle::Colocated => (),
    }
}

/// Transform composition acts on whole outlines as the two transforms in
/// turn, contour by contour and point by point.
pub proof fn lemma_transform_compose_outline<PD: PointData>(
    outer: GlifMatrix,
    inner: GlifMatrix,
    o: Seq<Seq<Point<PD>>>,
)
    ensures
        spec_transform_outline(outer.spec_compose(inner), o) == spec_transform_outline(
            outer,
            spec_transform_outline(inner, o),
        ),
{
    let lhs = spec_transform_outline(outer.spec_compose(inner), o);
    let rhs = spec_transform_outline(outer, spec_transform_outline(inner, o));
    assert forall|i: int| 0 <= i < o.len() implies lhs[i] == rhs[i] by {
        let lc = spec_transform_contour(outer.spec_compose(inner), o[i]);
        let rc = spec_transform_contour(outer, spec_transform_contour(inner, o[i]));
        assert forall|j: int| 0 <= j < o[i].len() implies lc[j] == rc[j] by {
            lemma_transform_compose_point(outer, inner, o[i][j]);
        }
        assert(lc =~= rc);
    }
    assert(lhs =~= rhs);
}

/// Declaration order is preserved: a glyph with exactly two components, each
/// of which resolves, flattens their geometry with the first component's
/// contours appended before the second's.
pub proof fn lemma_declaration_order<PD: PointData>(
    store: Seq<Glif<PD>>,
    comps: Seq<GlifComponent>,
    visited: Seq<Seq<char>>,
    t: GlifMatrix,
    sub1: Seq<Seq<Point<PD>>>,
    sub2: Seq<Seq<Point<PD>>>,
)
    requires
        visited_ok(store, visited),
        comps.len() == 2,
        spec_resolve_component(store, comps[0], visited, t) == SpecResolution::<PD>::Resolved(sub1),
        spec_resolve_component(store, comps[1], visited, t) == SpecResolution::<PD>::Resolved(sub2),
    ensures
        spec_resolve_comps(store, comps, visited, t) == SpecResolution::<PD>::Resolved(sub1 + sub2),
{
    reveal_with_fuel(spec_resolve_comps, 4);
    let one = comps.drop_first();
    assert(one[0] == comps[1]);
    assert(one.drop_first() =~= Seq::<GlifComponent>::empty());
    assert(spec_resolve_comps(store, one.drop_first(), visited, t) == SpecResolution::<
        PD,
    >::Resolved(Seq::empty()));
    assert(sub2 + Seq::empty() =~= sub2);
    assert(sub1 + (sub2 + Seq::<Seq<Point<PD>>>::empty()) =~= sub1 + sub2);
}

/// A glyph whose first component refers to a name already on the resolution
/// path - itself included, the cycle of length one - resolves to the cycle
/// error carrying the full path, and to nothing else.
pub proof fn lemma_self_reference_cycles<PD: PointData>(store: Seq<Glif<PD>>, g: Glif<PD>, t: GlifMatrix)
    requires
        g.components@.len() > 0,
        g.components@[0].base@ == g.name@,
    ensures
        spec_flatten(store, g, seq![g.name@], t) == SpecResolution::<PD>::Cyclic(
            seq![g.name@, g.name@],
        ),
{
    let visited = seq![g.name@];
    assert(visited_ok(store, visited));
    assert(visited.contains(g.components@[0].base@)) by {
        assert(visited[0] == g.components@[0].base@);
    }
    assert(visited.push(g.name@) =~= seq![g.name@, g.name@]);
}

/// Clones of a list of names hold the same names.
fn clone_names(v: &Vec<String>) -> (r: Vec<String>)
    ensures
        r@ == v@,
{
    let cloned_v = v.clone();
    proof {
        assert forall|i: int| 0 <= i < v@.len() implies cloned_v@[i] == v@[i] by {
            assert(cloned::<String>(v@[i], cloned_v@[i]));
        }
        assert(cloned_v@ =~= v@);
    }
    cloned_v
}

/// Whether a name is on the visitation path.
fn visited_contains(visited: &Vec<String>, name: &str) -> (r: bool)
    ensures
        r == name_views(visited@).contains(name@),
{
    let mut i: usize = 0;
    while i < visited.len()
        invariant
            i <= visited@.len(),
            forall|j: int| 0 <= j < i ==> name_views(visited@)[j] != name@,
        decreases visited@.len() - i,
    {
        if str_eq(visited[i].as_str(), name) {
            proof {
                assert(name_views(visited@)[i as int] == name@);
            }
            return true;
        }
        i += 1;
    }
    proof {
        assert forall|j: int| 0 <= j < name_views(visited@).len() implies name_views(visited@)[j]
            != name@ by {}
    }
    false
}

/// Find the first glyph with the given name in the store.
fn lookup_glyph<'a, PD: PointData>(store: &'a Vec<Glif<PD>>, name: &str) -> (r: Option<
    &'a Glif<PD>,
>)
    ensures
        match r {
            Some(g) => spec_lookup(store@, name@) == Some(*g),
            None => spec_lookup(store@, name@) is None,
        },
{
    let n = store.len();
    let mut i: usize = 0;
    proof {
        assert(store@.subrange(0, n as int) =~= store@);
    }
    while i < n
        invariant
            i <= n,
            n == store@.len(),
            spec_lookup(store@, name@) == spec_lookup(
                store@.subrange(i as int, n as int),
                name@,
            ),
        decreases n - i,
    {
        let suffix = Ghost(store@.subrange(i as int, n as int));
        proof {
            assert(suffix@[0] == store@[i as int]);
        }
        if str_eq(store[i].name.as_str(), name) {
            return Some(&store[i]);
        }
        proof {
            assert(suffix@.drop_first() =~= store@.subrange(i + 1, n as int));
        }
        i += 1;
    }
    proof {
        assert(store@.subrange(n as int, n as int) =~= Seq::<Glif<PD>>::empty());
    }
    None
}

/// Apply a transform to one handle.
fn transform_handle(t: &GlifMatrix, h: &Handle) -> (r: Handle)
    ensures
        r == spec_transform_handle(*t, *h),
{
    match h {
        Handle::Colocated => Handle::Colocated,
        Handle::At(x, y) => {
            let pos = t.apply(*x, *y);
            Handle::At(pos.0, pos.1)
        },
    }
}

/// Apply a transform to one point; the materialized point carries no
/// per-point data.
fn transform_point<PD: PointData>(t: &GlifMatrix, p: &Point<PD>) -> (r: Point<PD>)
    ensures
        r == spec_transform_point(*t, *p),
{
    let pos = t.apply(p.x, p.y);
    let name = match &p.name {
        Some(s) => Some(s.clone()),
        None => None,
    };
    Point {
        x: pos.0,
        y: pos.1,
        a: transform_handle(t, &p.a),
        b: transform_handle(t, &p.b),
        name,
        ptype: p.ptype,
        data: None,
    }
}

/// Apply a transform to every point of a contour, in order.
fn transform_contour<PD: PointData>(t: &GlifMatrix, c: &Contour<PD>) -> (r: Contour<PD>)
    ensures
        r@ == spec_transform_contour(*t, c@),
{
    let mut r: Contour<PD> = Vec::new();
    let mut i: usize = 0;
    while i < c.len()
        invariant
            i <= c@.len(),
            r@.len() == i,
            forall|j: int| 0 <= j < i ==> r@[j] == spec_transform_point(*t, c@[j]),
        decreases c@.len() - i,
    {
        r.push(transform_point(t, &c[i]));
        i += 1;
    }
    proof {
        assert(r@ =~= spec_transform_contour(*t, c@));
    }
    r
}

/// Apply a transform to every contour of an outline, in order.
fn transform_outline<PD: PointData>(t: &GlifMatrix, o: &Outline<PD>) -> (r: Outline<PD>)
    ensures
        contours_view(r@) == spec_transform_outline(*t, contours_view(o@)),
{
    let mut r: Outline<PD> = Vec::new();
    let mut i: usize = 0;
    while i < o.len()
        invariant
            i <= o@.len(),
            r@.len() == i,
            forall|j: int| 0 <= j < i ==> r@[j]@ == spec_transform_contour(*t, o@[j]@),
        decreases o@.len() - i,
    {
        r.push(transform_contour(t, &o[i]));
        i += 1;
    }
    proof {
        assert(contours_view(r@) =~= spec_transform_outline(*t, contours_view(o@)));
    }
    r
}

/// Resolve one component against the store under an accumulated transform,
/// with the given names already on the resolution path.
pub(crate) fn resolve_component_with<PD: PointData>(
    comp: &GlifComponent,
    store: &Vec<Glif<PD>>,
    visited: &Vec<String>,
    t: &GlifMatrix,
) -> (r: Result<Outline<PD>, GlifParserError>)
    requires
        visited_ok(store@, name_views(visited@)),
    ensures
        resolution_matches(r, spec_resolve_component(store@, *comp, name_views(visited@), *t)),
    decreases store@.len() + 1 - visited@.len(), 0int, 0int,
{
    if visited_contains(visited, comp.base.as_str()) {
        let mut path = clone_names(visited);
        path.push(comp.base.clone());
        proof {
            assert(name_views(path@) =~= name_views(visited@).push(comp.base@));
        }
        return Err(GlifParserError::CyclicComponentReference(path));
    }
    match lookup_glyph(store, comp.base.as_str()) {
        None => Err(GlifParserError::UnresolvedComponent(comp.base.clone())),
        Some(base_glyph) => {
            let mut v2 = clone_names(visited);
            v2.push(comp.base.clone());
            let t2 = t.compose(&comp.transform);
            proof {
                assert(name_views(v2@) =~= name_views(visited@).push(comp.base@));
                lemma_lookup_in_names(store@, comp.base@);
                lemma_push_visited_ok(store@, name_views(visited@), comp.base@);
                lemma_visited_bound(store@, name_views(v2@));
            }
            flatten_rec(store, base_glyph, &v2, &t2)
        },
    }
}

/// Flatten a glyph against the store under an accumulated transform, with
/// the given names already on the resolution path: its own outline,
/// transformed, then each component's geometry in declaration order.
fn flatten_rec<PD: PointData>(
    store: &Vec<Glif<PD>>,
    g: &Glif<PD>,
    visited: &Vec<String>,
    t: &GlifMatrix,
) -> (r: Result<Outline<PD>, GlifParserError>)
    requires
        visited_ok(store@, name_views(visited@)),
    ensures
        resolution_matches(r, spec_flatten(store@, *g, name_views(visited@), *t)),
    decreases store@.len() + 1 - visited@.len(), 1int, 0int,
{
    let ghost nv = name_views(visited@);
    let ghost full = g.components@;
    let mut out: Outline<PD> = match &g.outline {
        Some(o) => transform_outline(t, o),
        None => Vec::new(),
    };
    proof {
        assert(contours_view(out@) == spec_transform_outline(*t, spec_own_outline(*g)));
    }
    let mut ci: usize = 0;
    proof {
        assert(full.subrange(0, full.len() as int) =~= full);
    }
    while ci < g.components.len()
        invariant
            visited_ok(store@, nv),
            nv == name_views(visited@),
            full == g.components@,
            ci <= full.len(),
            ({
                let tail = spec_resolve_comps(
                    store@,
                    full.subrange(ci as int, full.len() as int),
                    nv,
                    *t,
                );
                match tail {
                    SpecResolution::Resolved(rest) => spec_flatten(store@, *g, nv, *t)
                        == SpecResolution::<PD>::Resolved(contours_view(out@) + rest),
                    err => spec_flatten(store@, *g, nv, *t) == err,
                }
            }),
        decreases full.len() - ci,
    {
        let ghost suffix = full.subrange(ci as int, full.len() as int);
        proof {
            assert(suffix[0] == full[ci as int]);
            assert(suffix.drop_first() =~= full.subrange(ci + 1, full.len() as int));
        }
        match resolve_component_with(&g.components[ci], store, visited, t) {
            Err(e) => {
                return Err(e);
            },
            Ok(mut sub) => {
                let ghost sub_view = contours_view(sub@);
                let ghost out_view = contours_view(out@);
                out.append(&mut sub);
                proof {
                    assert(contours_view(out@) =~= out_view + sub_view);
                    let tail2 = spec_resolve_comps(
                        store@,
                        full.subrange(ci + 1, full.len() as int),
                        nv,
                        *t,
                    );
                    match tail2 {
                        SpecResolution::Resolved(rest2) => {
                            assert((out_view + sub_view) + rest2 =~= out_view + (sub_view
                                + rest2));
                        },
                        _ => (),
                    }
                }
            },
        }
        ci += 1;
    }
    proof {
        assert(full.subrange(ci as int, full.len() as int) =~= Seq::<GlifComponent>::empty());
        assert(contours_view(out@) + Seq::<Seq<Point<PD>>>::empty() =~= contours_view(out@));
    }
    Ok(out)
}

/// Resolve one component against the store: produce the base glyph's fully
/// flattened geometry under the component's transform, or report the missing
/// name or the reference cycle. The names in `visited` are treated as
/// already on the resolution path.
pub fn resolve_component<PD: PointData>(
    comp: &GlifComponent,
    store: &Vec<Glif<PD>>,
    visited: &Vec<String>,
) -> (r: Result<Outline<PD>, GlifParserError>)
    requires
        visited_ok(store@, name_views(visited@)),
    ensures
        resolution_matches(
            r,
            spec_resolve_component(
                store@,
                *comp,
                name_views(visited@),
                GlifMatrix::spec_identity(),
            ),
        ),
{
    let t = GlifMatrix::identity();
    resolve_component_with(comp, store, visited, &t)
}

impl<PD: PointData> Glif<PD> {
    /// Flatten this glyph against a store of sibling glyphs: start from its
    /// own outline, then resolve each component in declaration order and
    /// append its geometry. The glyph's own name starts the visitation path,
    /// so a component referring back to it is reported as a cycle. Always
    /// terminates; on failure the store and this glyph are untouched.
    pub fn flatten(&self, store: &Vec<Glif<PD>>) -> (r: Result<
        Outline<PD>,
        GlifParserError,
    >)
        ensures
            resolution_matches(
                r,
                spec_flatten(store@, *self, seq![self.name@], GlifMatrix::spec_identity()),
            ),
    {
        let mut visited: Vec<String> = Vec::new();
        visited.push(self.name.clone());
        proof {
            assert(name_views(visited@) =~= seq![self.name@]);
            assert(visited_ok(store@, name_views(visited@)));
        }
        let t = GlifMatrix::identity();
        flatten_rec(store, self, &visited, &t)
    }
}

/// The first failing component decides the outcome: when every component
/// before position `k` resolves and component `k` fails, resolving the whole
/// list in declaration order fails with component `k`'s error.
pub proof fn lemma_first_failure_wins<PD: PointData>(
    store: Seq<Glif<PD>>,
    comps: Seq<GlifComponent>,
    visited: Seq<Seq<char>>,
    t: GlifMatrix,
    k: int,
)
    requires
        visited_ok(store, visited),
        0 <= k < comps.len(),
        forall|i: int|
            0 <= i < k ==> #[trigger] spec_resolve_component(store, comps[i], visited, t)
                is Resolved,
        !(spec_resolve_component(store, comps[k], visited, t) is Resolved),
    ensures
        spec_resolve_comps(store, comps, visited, t) == spec_resolve_component(
            store,
            comps[k],
            visited,
            t,
        ),
    decreases k,
{
    let first = spec_resolve_component(store, comps[0], visited, t);
    if k == 0 {
        match first {
            SpecResolution::Resolved(sub) => {
                assert(false);
            },
            _ => {
                assert(spec_resolve_comps(store, comps, visited, t) == first);
            },
        }
    } else {
        assert(first is Resolved);
        let rest = comps.drop_first();
        assert forall|i: int|
            0 <= i < k - 1 implies #[trigger] spec_resolve_component(store, rest[i], visited, t)
            is Resolved by {
            assert(rest[i] == comps[i + 1]);
        }
        assert(rest[k - 1] == comps[k]);
        lemma_first_failure_wins(store, rest, visited, t, k - 1);
    }
}

/// The names of a chain of glyphs, in order.
pub open spec fn chain_names<PD: PointData>(chain: Seq<Glif<PD>>) -> Seq<Seq<char>> {
    chain.map(|i: int, g: Glif<PD>| g.name@)
}

/// One position of a reference chain: the glyph there has a component, that
/// component names the next glyph of the chain, and every glyph but the head
/// is what the store's lookup finds under its name.
pub open spec fn chain_step_ok<PD: PointData>(
    store: Seq<Glif<PD>>,
    chain: Seq<Glif<PD>>,
    i: int,
) -> bool {
    &&& chain[i].components@.len() > 0
    &&& (i < chain.len() - 1 ==> chain[i].components@[0].base@ == chain[i + 1].name@)
    &&& (i >= 1 ==> spec_lookup(store, chain[i].name@) == Some(chain[i]))
}

/// Cycle termination for a cycle of any length: resolving the head of a
/// chain of distinctly named glyphs, in which each one's first component
/// names the next and the last names the head again, fails with the cycle
/// error carrying the full path around the cycle.
pub proof fn lemma_cycle_of_any_length<PD: PointData>(store: Seq<Glif<PD>>, chain: Seq<Glif<PD>>)
    requires
        chain.len() >= 1,
        forall|i: int| 0 <= i < chain.len() ==> #[trigger] chain_step_ok(store, chain, i),
        chain.last().components@[0].base@ == chain[0].name@,
        chain_names(chain).no_duplicates(),
    ensures
        spec_flatten(store, chain[0], seq![chain[0].name@], GlifMatrix::spec_identity())
            == SpecResolution::<PD>::Cyclic(chain_names(chain).push(chain[0].name@)),
{
    let visited = seq![chain[0].name@];
    assert(visited[0] == chain_names(chain)[0]);
    lemma_cycle_from_position(store, chain, 0, visited, GlifMatrix::spec_identity());
}

/// One step around the cycle: standing at position `k` of the chain with the
/// names of positions `0` to `k` on the path, flattening glyph `k` fails
/// with the cycle error carrying the full path.
proof fn lemma_cycle_from_position<PD: PointData>(
    store: Seq<Glif<PD>>,
    chain: Seq<Glif<PD>>,
    k: int,
    visited: Seq<Seq<char>>,
    t: GlifMatrix,
)
    requires
        0 <= k < chain.len(),
        forall|i: int| 0 <= i < chain.len() ==> #[trigger] chain_step_ok(store, chain, i),
        chain.last().components@[0].base@ == chain[0].name@,
        chain_names(chain).no_duplicates(),
        visited.len() == k + 1,
        forall|i: int| 0 <= i <= k ==> #[trigger] visited[i] == chain_names(chain)[i],
    ensures
        spec_flatten(store, chain[k], visited, t) == SpecResolution::<PD>::Cyclic(
            chain_names(chain).push(chain[0].name@),
        ),
    decreases chain.len() - k,
{
    let names = chain_names(chain);
    assert(chain_step_ok(store, chain, k));
    assert(visited.no_duplicates()) by {
        assert forall|i: int, j: int|
            0 <= i < visited.len() && 0 <= j < visited.len() && i != j implies visited[i]
            != visited[j] by {
            assert(visited[i] == names[i]);
            assert(visited[j] == names[j]);
        }
    }
    assert(visited_ok(store, visited)) by {
        assert forall|i: int| 1 <= i < visited.len() implies store_names(store).contains(
            #[trigger] visited[i],
        ) by {
            assert(chain_step_ok(store, chain, i));
            assert(names[i] == chain[i].name@);
            lemma_lookup_in_names(store, chain[i].name@);
        }
    }
    let c = chain[k].components@[0];
    if k == chain.len() - 1 {
        assert(c.base@ == chain[0].name@);
        assert(visited.contains(c.base@)) by {
            assert(visited[0] == names[0]);
            assert(names[0] == chain[0].name@);
        }
        assert(visited =~= names) by {
            assert(forall|i: int| 0 <= i < names.len() ==> visited[i] == #[trigger] names[i]);
        }
    } else {
        assert(c.base@ == chain[k + 1].name@);
        assert(names[k + 1] == chain[k + 1].name@);
        assert(!visited.contains(c.base@)) by {
            if visited.contains(c.base@) {
                let i = choose|i: int| 0 <= i < visited.len() && visited[i] == c.base@;
                assert(visited[i] == names[i]);
                assert(names[i] == names[k + 1]);
            }
        }
        assert(chain_step_ok(store, chain, k + 1));
        assert(spec_lookup(store, c.base@) == Some(chain[k + 1]));
        let v2 = visited.push(c.base@);
        assert(forall|i: int| 0 <= i <= k + 1 ==> #[trigger] v2[i] == names[i]);
        lemma_lookup_in_names(store, c.base@);
        lemma_push_visited_ok(store, visited, c.base@);
        lemma_cycle_from_position(store, chain, k + 1, v2, t.spec_compose(c.transform));
        assert(spec_flatten(store, chain[k + 1], v2, t.spec_compose(c.transform))
            == SpecResolution::<PD>::Cyclic(names.push(chain[0].name@)));
        assert(spec_resolve_component(store, c, visited, t) == (match spec_lookup(
            store,
            c.base@,
        ) {
            None => SpecResolution::<PD>::Unresolved(c.base@),
            Some(g2) => spec_flatten(store, g2, visited.push(c.base@), t.spec_compose(c.transform)),
        }));
        assert(spec_resolve_component(store, c, visited, t) == SpecResolution::<PD>::Cyclic(
            names.push(chain[0].name@),
        ));
    }
    assert(spec_resolve_comps(store, chain[k].components@, visited, t) == SpecResolution::<
        PD,
    >::Cyclic(names.push(chain[0].name@)));
}

} // verus!