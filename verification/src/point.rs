//! The atomic curve vertex: a position, two optional directional handles, a
//! curve-segment type tag, and an open slot for caller-supplied per-point data.

use vstd::prelude::*;

verus! {

/// Curve-segment type tag of a point, matching the tokens of the glyph file
/// format. `Undefined` is the state of a freshly constructed point and is
/// never written out; `QClose` is a deprecated legacy tag that is likewise
/// excluded from serialization.
#[derive(Debug, Copy, Clone, PartialEq, Eq, Structural)]
pub enum PointType {
    Undefined,
    Move,
    Curve,
    QCurve,
    QClose,
    Line,
    OffCurve,
}

/// Selector for one of a point's two handles. `Neither` is a sentinel that no
/// handle accessor should ever be handed; the accessors degrade safely on it
/// instead of panicking.
#[derive(Debug, Copy, Clone, PartialEq, Eq, Hash, Structural)]
pub enum WhichHandle {
    Neither,
    A,
    B,
}

/// A handle on a point: either colocated with its owning point (the default,
/// meaning "no independent direction") or at its own position.
#[derive(Debug, Copy, Clone, PartialEq, Eq, Structural)]
pub enum Handle {
    Colocated,
    At(i64, i64),
}

/// A "close to the source" file-format point record.
#[derive(Debug, Clone, PartialEq)]
pub struct GlifPoint {
    pub x: i64,
    pub y: i64,
    pub smooth: bool,
    pub name: Option<String>,
    pub ptype: PointType,
}

/// Marker bound for caller-supplied per-point data. The embedding application
/// may attach an arbitrary value of its own to every point (it should be
/// clonable, default-constructible and debug-printable so the containing
/// records can derive those traits); the core ignores it in all algorithms.
pub trait PointData {
}

impl PointData for () {
}

/// A drawing-friendly point: position, two handles, type tag, optional name,
/// and the open per-point data slot.
#[derive(Debug, Clone, PartialEq)]
pub struct Point<PD: PointData> {
    pub x: i64,
    pub y: i64,
    pub a: Handle,
    pub b: Handle,
    pub name: Option<String>,
    pub ptype: PointType,
    pub data: Option<PD>,
}

/// What a freshly constructed point holds: origin position, both handles
/// colocated, undefined type, no name and no data.
pub open spec fn is_default_point<PD: PointData>(p: Point<PD>) -> bool {
    &&& p.x == 0
    &&& p.y == 0
    &&& p.a == Handle::Colocated
    &&& p.b == Handle::Colocated
    &&& p.name is None
    &&& p.ptype == PointType::Undefined
    &&& p.data is None
}

impl Default for Handle {
    fn default() -> (r: Self)
        ensures
            r == Handle::Colocated,
    {
        Handle::Colocated
    }
}

impl Default for PointType {
    fn default() -> (r: Self)
        ensures
            r == PointType::Undefined,
    {
        PointType::Undefined
    }
}

impl Default for WhichHandle {
    fn default() -> (r: Self)
        ensures
            r == WhichHandle::Neither,
    {
        WhichHandle::Neither
    }
}

impl GlifPoint {
    pub fn new() -> (r: GlifPoint)
        ensures
            r.x == 0,
            r.y == 0,
            r.smooth == false,
            r.name is None,
            r.ptype == PointType::Undefined,
    {
        GlifPoint {
            x: 0,
            y: 0,
            smooth: false,
            name: None,
            ptype: PointType::Undefined,
        }
    }
}

impl Handle {
    /// A raw file-format point read as a neighboring off-curve record becomes
    /// a handle at that record's position; an absent record means the handle
    /// coincides with its owning point.
    pub fn from_glif_point(point: Option<&GlifPoint>) -> (r: Handle)
        ensures
            match point {
                Some(p) => r == Handle::At(p.x, p.y),
                None => r == Handle::Colocated,
            },
    {
        match point {
            Some(p) => Handle::At(p.x, p.y),
            None => Handle::Colocated,
        }
    }
}

impl<PD: PointData> Default for Point<PD> {
    fn default() -> (r: Self)
        ensures
            is_default_point(r),
    {
        Point {
            x: 0,
            y: 0,
            a: Handle::Colocated,
            b: Handle::Colocated,
            name: None,
            ptype: PointType::Undefined,
            data: None,
        }
    }
}

impl<PD: PointData> Point<PD> {
    pub fn new() -> (r: Point<PD>)
        ensures
            is_default_point(r),
    {
        Self::default()
    }

    /// Make a point from its x and y position and type.
    pub fn from_x_y_type(pos: (i64, i64), ptype: PointType) -> (r: Point<PD>)
        ensures
            r.x == pos.0,
            r.y == pos.1,
            r.a == Handle::Colocated,
            r.b == Handle::Colocated,
            r.name is None,
            r.ptype == ptype,
            r.data is None,
    {
        Point {
            x: pos.0,
            y: pos.1,
            a: Handle::Colocated,
            b: Handle::Colocated,
            name: None,
            ptype,
            data: None,
        }
    }

    /// Make a point from its x and y position, handles and type.
    pub fn from_x_y_a_b_type(pos: (i64, i64), handles: (Handle, Handle), ptype: PointType) -> (r:
        Point<PD>)
        ensures
            r.x == pos.0,
            r.y == pos.1,
            r.a == handles.0,
            r.b == handles.1,
            r.name is None,
            r.ptype == ptype,
            r.data is None,
    {
        Point {
            x: pos.0,
            y: pos.1,
            a: handles.0,
            b: handles.1,
            name: None,
            ptype,
            data: None,
        }
    }

    /// Make a point from all of its fields.
    pub fn from_fields(
        pos: (i64, i64),
        handles: (Handle, Handle),
        ptype: PointType,
        name: Option<String>,
        data: Option<PD>,
    ) -> (r: Point<PD>)
        ensures
            r.x == pos.0,
            r.y == pos.1,
            r.a == handles.0,
            r.b == handles.1,
            r.name == name,
            r.ptype == ptype,
            r.data == data,
    {
        Point { x: pos.0, y: pos.1, a: handles.0, b: handles.1, name, ptype, data }
    }

    /// The handle that `which` selects; the `Neither` sentinel selects no
    /// handle and yields the harmless default.
    pub open spec fn spec_handle(&self, which: WhichHandle) -> Handle {
        match which {
            WhichHandle::A => self.a,
            WhichHandle::B => self.b,
            WhichHandle::Neither => Handle::Colocated,
        }
    }

    /// The effective position of the handle that `which` selects: the
    /// handle's own position, or the point's position where the handle is
    /// colocated or `which` is the `Neither` sentinel.
    pub open spec fn spec_handle_pos(&self, which: WhichHandle) -> (i64, i64) {
        match self.spec_handle(which) {
            Handle::At(hx, hy) => (hx, hy),
            Handle::Colocated => (self.x, self.y),
        }
    }

    /// Return the requested handle. Passing `WhichHandle::Neither` is a
    /// caller error; it is answered with the harmless `Colocated` default
    /// rather than a panic.
    pub fn handle(&self, which: WhichHandle) -> (r: Handle)
        ensures
            r == self.spec_handle(which),
    {
        match which {
            WhichHandle::A => self.a,
            WhichHandle::B => self.b,
            WhichHandle::Neither => Handle::Colocated,
        }
    }

    /// Return an x, y position for a point, or one of its handles, passed
    /// through the caller-supplied coordinate transforms. If called with
    /// `WhichHandle::Neither`, the point's own position is used.
    pub fn handle_or_colocated<FX: Fn(i64) -> i64, FY: Fn(i64) -> i64>(
        &self,
        which: WhichHandle,
        transform_x: FX,
        transform_y: FY,
    ) -> (r: (i64, i64))
        requires
            forall|v: i64| #[trigger] transform_x.requires((v,)),
            forall|v: i64| #[trigger] transform_y.requires((v,)),
        ensures
            transform_x.ensures((self.spec_handle_pos(which).0,), r.0),
            transform_y.ensures((self.spec_handle_pos(which).1,), r.1),
    {
        let handle = self.handle(which);
        match handle {
            Handle::At(hx, hy) => (transform_x(hx), transform_y(hy)),
            Handle::Colocated => (transform_x(self.x), transform_y(self.y)),
        }
    }

    /// Set the requested handle in place. Passing `WhichHandle::Neither` is a
    /// caller error; the point is left unchanged rather than panicking.
    pub fn set_handle(&mut self, which: WhichHandle, handle: Handle)
        ensures
            final(self).x == old(self).x,
            final(self).y == old(self).y,
            final(self).name == old(self).name,
            final(self).ptype == old(self).ptype,
            final(self).data == old(self).data,
            final(self).a == (if which is A {
                handle
            } else {
                old(self).a
            }),
            final(self).b == (if which is B {
                handle
            } else {
                old(self).b
            }),
    {
        match which {
            WhichHandle::A => self.a = handle,
            WhichHandle::B => self.b = handle,
            WhichHandle::Neither => (),
        }
    }
}

impl PointType {
    /// Whether a point of this type belongs in serialized output: everything
    /// but the fresh `Undefined` state and the deprecated legacy close tag.
    pub fn should_write_to_ufo(&self) -> (r: bool)
        ensures
            r == !(self is Undefined || self is QClose),
    {
        match self {
            PointType::Undefined | PointType::QClose => false,
            _ => true,
        }
    }
}


/// The file-format token of a curve-segment type.
pub open spec fn spec_type_token(t: PointType) -> Seq<char> {
    match t {
        PointType::Undefined => "undefined"@,
        PointType::Move => "move"@,
        PointType::Curve => "curve"@,
        PointType::QCurve => "qcurve"@,
        PointType::QClose => "qclose"@,
        PointType::Line => "line"@,
        PointType::OffCurve => "offcurve"@,
    }
}

/// The curve-segment type a token names; any unrecognized token, the
/// deprecated legacy close token included, normalizes to the off-curve type.
pub open spec fn spec_token_type(s: Seq<char>) -> PointType {
    if s == "move"@ {
        PointType::Move
    } else if s == "line"@ {
        PointType::Line
    } else if s == "qcurve"@ {
        PointType::QCurve
    } else if s == "curve"@ {
        PointType::Curve
    } else {
        PointType::OffCurve
    }
}

/// Reading a written token back gives the type it was written from, for
/// every type that is written at all.
pub proof fn lemma_token_round_trip(t: PointType)
    requires
        !(t is Undefined || t is QClose),
    ensures
        spec_token_type(spec_type_token(t)) == t,
{
    reveal_strlit("move");
    reveal_strlit("line");
    reveal_strlit("qcurve");
    reveal_strlit("curve");
    reveal_strlit("offcurve");
    assert("move"@[0] == 'm');
    assert("line"@[0] == 'l');
    assert("curve"@.len() == 5);
    assert("qcurve"@.len() == 6);
    assert("offcurve"@.len() == 8);
    assert("move"@.len() == 4);
    assert("line"@.len() == 4);
}

impl PointType {
    /// The token this type is written as.
    pub fn to_token(&self) -> (r: String)
        ensures
            r@ == spec_type_token(*self),
    {
        match self {
            PointType::Undefined => "undefined".to_owned(),
            PointType::Move => "move".to_owned(),
            PointType::Curve => "curve".to_owned(),
            PointType::QCurve => "qcurve".to_owned(),
            PointType::QClose => "qclose".to_owned(),
            PointType::Line => "line".to_owned(),
            PointType::OffCurve => "offcurve".to_owned(),
        }
    }

    /// The type a token names; unrecognized tokens normalize to off-curve.
    pub fn from_token(s: &str) -> (r: PointType)
        ensures
            r == spec_token_type(s@),
    {
        if crate::strutil::str_eq(s, "move") {
            PointType::Move
        } else if crate::strutil::str_eq(s, "line") {
            PointType::Line
        } else if crate::strutil::str_eq(s, "qcurve") {
            PointType::QCurve
        } else if crate::strutil::str_eq(s, "curve") {
            PointType::Curve
        } else {
            PointType::OffCurve
        }
    }
}

impl WhichHandle {
    /// The handle a selector token names, with surrounding Unicode
    /// whitespace ignored: `A` or `B` in either case; any other token names
    /// the `Neither` sentinel.
    pub fn from_token(s: &str) -> (r: WhichHandle)
        ensures
            ({
                let t = crate::strutil::spec_trim(s@);
                &&& (t == "A"@ || t == "a"@) ==> r == WhichHandle::A
                &&& (t == "B"@ || t == "b"@) ==> r == WhichHandle::B
                &&& !(t == "A"@ || t == "a"@ || t == "B"@ || t == "b"@) ==> r
                    == WhichHandle::Neither
            }),
    {
        proof {
            reveal_strlit("A");
            reveal_strlit("a");
            reveal_strlit("B");
            reveal_strlit("b");
            assert("A"@[0] == 'A');
            assert("a"@[0] == 'a');
            assert("B"@[0] == 'B');
            assert("b"@[0] == 'b');
        }
        let t = crate::strutil::trim_ws(s);
        if crate::strutil::str_eq(t, "A") || crate::strutil::str_eq(t, "a") {
            WhichHandle::A
        } else if crate::strutil::str_eq(t, "B") || crate::strutil::str_eq(t, "b") {
            WhichHandle::B
        } else {
            WhichHandle::Neither
        }
    }
}

} // verus!
