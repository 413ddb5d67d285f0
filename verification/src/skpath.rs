use vstd::prelude::*;
use crate::bezier::{
    bez_cp0, bez_cp1, bez_cp2, bez_cp3, from_points_spec, vec_of, Bezier, QBez, PT_LIM,
};
use crate::contour::views_of;
use crate::error::CurveError;
use crate::piecewise::{pwb_fits, Piecewise};
use crate::vector::{qv_eq, qv_small, Q, QVec, Scalar, Vector};

verus! {

/// One verb of the drawing-path format, with its full point group: `Move`
/// starts a subpath (1 point), `Line`, `Quad` and `Cubic` carry their end
/// points and handles in order, `Close` ends the subpath. `Conic` is the
/// one verb kind the format carries that this kernel does not support.
#[derive(Clone, Copy, Debug, PartialEq, Eq, Structural)]
pub enum PathVerb {
    Move(Vector),
    Line(Vector, Vector),
    Quad(Vector, Vector, Vector),
    Cubic(Vector, Vector, Vector, Vector),
    Close,
    Conic(Vector, Vector, Vector),
}

/// A drawing path: an ordered verb stream defining one or more subpaths.
#[derive(Clone, Debug)]
pub struct SkPath {
    pub verbs: Vec<PathVerb>,
}

impl SkPath {
    /// An empty path.
    pub fn new() -> (r: SkPath)
        ensures
            r.verbs@.len() == 0,
    {
        SkPath { verbs: Vec::new() }
    }
}

/// A path point this kernel consumes: integer coordinates within `PT_LIM`.
pub open spec fn path_pt_ok(v: Vector) -> bool {
    v.wf() && v@.x.d == 1 && v@.y.d == 1 && qv_small(v@, PT_LIM as int)
}

pub open spec fn verb_ok(vb: PathVerb) -> bool {
    match vb {
        PathVerb::Move(p) => path_pt_ok(p),
        PathVerb::Line(a, b) => path_pt_ok(a) && path_pt_ok(b),
        PathVerb::Quad(a, h, b) => path_pt_ok(a) && path_pt_ok(h) && path_pt_ok(b),
        PathVerb::Cubic(a, h1, h2, b) => path_pt_ok(a) && path_pt_ok(h1) && path_pt_ok(h2)
            && path_pt_ok(b),
        PathVerb::Close => true,
        PathVerb::Conic(a, h, b) => path_pt_ok(a) && path_pt_ok(h) && path_pt_ok(b),
    }
}

pub open spec fn path_ok(s: Seq<PathVerb>) -> bool {
    forall|i: int| 0 <= i < s.len() ==> verb_ok(#[trigger] s[i])
}

/// Whether every verb is one of the five supported kinds.
pub open spec fn parse_ok(s: Seq<PathVerb>) -> bool {
    forall|i: int| 0 <= i < s.len() ==> !((#[trigger] s[i]) is Conic)
}

/// A point scaled onto the denominator three, without changing its value.
pub open spec fn tri_pt(p: QVec) -> QVec {
    QVec { x: Q { n: 3 * p.x.n, d: 3 }, y: Q { n: 3 * p.y.n, d: 3 } }
}

/// The interior control point the standard quadratic-to-cubic elevation
/// derives from an endpoint and the quadratic handle:
/// `end + 2/3 (handle - end)`, over the denominator three.
pub open spec fn quad_cp(e: QVec, h: QVec) -> QVec {
    QVec { x: Q { n: e.x.n + 2 * h.x.n, d: 3 }, y: Q { n: e.y.n + 2 * h.y.n, d: 3 } }
}

/// The cubic a `Line` verb degree-elevates to: both interior control points
/// duplicate the endpoints.
pub open spec fn line_seg(a: QVec, b: QVec) -> QBez {
    from_points_spec(a, a, b, b)
}

/// The cubic a `Quad` verb degree-elevates to, by the standard elevation.
pub open spec fn quad_seg(a: QVec, h: QVec, b: QVec) -> QBez {
    from_points_spec(tri_pt(a), quad_cp(a, h), quad_cp(b, h), tri_pt(b))
}

/// The parser state: finished contours and the open one.
pub ghost struct ParseState {
    pub done: Seq<Seq<QBez>>,
    pub cur: Seq<QBez>,
}

/// One step of the drawing-path parse: `Move` closes any open subpath and
/// starts a fresh one; `Line`, `Quad` and `Cubic` append one cubic each,
/// degree-elevated as needed; `Close` ends the open subpath as a contour of
/// its own.
pub open spec fn parse_step(st: ParseState, vb: PathVerb) -> ParseState {
    match vb {
        PathVerb::Move(p) => ParseState {
            done: if st.cur.len() > 0 {
                st.done.push(st.cur)
            } else {
                st.done
            },
            cur: Seq::empty(),
        },
        PathVerb::Line(a, b) => ParseState { done: st.done, cur: st.cur.push(line_seg(a@, b@)) },
        PathVerb::Quad(a, h, b) => ParseState {
            done: st.done,
            cur: st.cur.push(quad_seg(a@, h@, b@)),
        },
        PathVerb::Cubic(a, h1, h2, b) => ParseState {
            done: st.done,
            cur: st.cur.push(from_points_spec(a@, h1@, h2@, b@)),
        },
        PathVerb::Close => ParseState { done: st.done.push(st.cur), cur: Seq::empty() },
        PathVerb::Conic(a, h, b) => st,
    }
}

/// The parser state after the first `i` verbs.
pub open spec fn parse_run(s: Seq<PathVerb>, i: int) -> ParseState
    decreases i,
{
    if i <= 0 {
        ParseState { done: Seq::empty(), cur: Seq::empty() }
    } else {
        parse_step(parse_run(s, i - 1), s[i - 1])
    }
}

/// The contours a whole verb stream parses to: the finished ones, plus the
/// still-open subpath if any segments are in it.
pub open spec fn parse_result(s: Seq<PathVerb>) -> Seq<Seq<QBez>> {
    let st = parse_run(s, s.len() as int);
    if st.cur.len() > 0 {
        st.done.push(st.cur)
    } else {
        st.done
    }
}

/// The verbs one segment emits: a `Move` to its start if it opens the
/// contour; a `Line` when both handles collapse onto the endpoints (the
/// segment's image is a straight line); and a `Cubic` in every case — the
/// line does not suppress it, mirroring the emission rule of the original
/// format exactly.
pub open spec fn emit_curve(v: QBez, first: bool) -> Seq<PathVerb> {
    let c0 = vec_of(bez_cp0(v));
    let c1 = vec_of(bez_cp1(v));
    let c2 = vec_of(bez_cp2(v));
    let c3 = vec_of(bez_cp3(v));
    let head: Seq<PathVerb> = if first {
        seq![PathVerb::Move(c0)]
    } else {
        Seq::empty()
    };
    let line: Seq<PathVerb> = if qv_eq(bez_cp0(v), bez_cp2(v)) && qv_eq(bez_cp1(v), bez_cp3(v)) {
        seq![PathVerb::Line(c0, c3)]
    } else {
        Seq::empty()
    };
    head + line + seq![PathVerb::Cubic(c0, c1, c2, c3)]
}

/// The verbs the first `i` segments of a contour emit.
pub open spec fn emit_contour_prefix(s: Seq<QBez>, i: int) -> Seq<PathVerb>
    decreases i,
{
    if i <= 0 {
        Seq::empty()
    } else {
        emit_contour_prefix(s, i - 1) + emit_curve(s[i - 1], i - 1 == 0)
    }
}

/// The verbs a whole contour emits.
pub open spec fn emit_contour(s: Seq<QBez>) -> Seq<PathVerb> {
    emit_contour_prefix(s, s.len() as int)
}

/// The verbs the first `i` contours of an outline emit.
pub open spec fn emit_outline_prefix(s: Seq<Piecewise<Bezier>>, i: int) -> Seq<PathVerb>
    decreases i,
{
    if i <= 0 {
        Seq::empty()
    } else {
        emit_outline_prefix(s, i - 1) + emit_contour(views_of(s[i - 1].curves@))
    }
}

pub open spec fn emit_outline(s: Seq<Piecewise<Bezier>>) -> Seq<PathVerb> {
    emit_outline_prefix(s, s.len() as int)
}

impl Piecewise<Bezier> {
    /// Appends this contour to a drawing path: one `Move` to the first
    /// segment's start, then per segment a `Line` when degenerate and a
    /// `Cubic` always.
    pub fn append_to_skpath(&self, skpath: SkPath) -> (r: SkPath)
        requires
            pwb_fits(*self),
        ensures
            r.verbs@ == skpath.verbs@ + emit_contour(views_of(self.curves@)),
    {
        let n: usize = self.curves.len();
        let mut path = skpath;
        let mut i: usize = 0;
        proof {
            assert(path.verbs@ =~= path.verbs@ + emit_contour_prefix(
                views_of(self.curves@),
                0,
            ));
        }
        while i < n
            invariant
                i <= n,
                n == self.curves@.len(),
                pwb_fits(*self),
                path.verbs@ == skpath.verbs@ + emit_contour_prefix(
                    views_of(self.curves@),
                    i as int,
                ),
            decreases n - i,
        {
            let cps = self.curves[i].to_control_points();
            proof {
                assert(cps[0] == vec_of(bez_cp0(self.curves@[i as int]@)));
                assert(cps[1] == vec_of(bez_cp1(self.curves@[i as int]@)));
                assert(cps[2] == vec_of(bez_cp2(self.curves@[i as int]@)));
                assert(cps[3] == vec_of(bez_cp3(self.curves@[i as int]@)));
            }
            if i == 0 {
                path.verbs.push(PathVerb::Move(cps[0]));
            }
            if cps[0].eq_value(&cps[2]) && cps[1].eq_value(&cps[3]) {
                path.verbs.push(PathVerb::Line(cps[0], cps[3]));
            }
            path.verbs.push(PathVerb::Cubic(cps[0], cps[1], cps[2], cps[3]));
            proof {
                let vs = views_of(self.curves@);
                assert(emit_contour_prefix(vs, i as int + 1) == emit_contour_prefix(vs, i as int)
                    + emit_curve(vs[i as int], i == 0));
                assert(vs[i as int] == self.curves@[i as int]@);
                assert(path.verbs@ =~= skpath.verbs@ + emit_contour_prefix(vs, i as int + 1));
            }
            i += 1;
        }
        path
    }
}

impl Piecewise<Piecewise<Bezier>> {
    /// Appends every contour of this outline to a drawing path.
    pub fn append_to_skpath(&self, skpath: SkPath) -> (r: SkPath)
        requires
            forall|i: int| 0 <= i < self.curves@.len() ==> pwb_fits(#[trigger] self.curves@[i]),
        ensures
            r.verbs@ == skpath.verbs@ + emit_outline(self.curves@),
    {
        let n: usize = self.curves.len();
        let mut path = skpath;
        let mut i: usize = 0;
        proof {
            assert(path.verbs@ =~= path.verbs@ + emit_outline_prefix(self.curves@, 0));
        }
        while i < n
            invariant
                i <= n,
                n == self.curves@.len(),
                forall|j: int| 0 <= j < n ==> pwb_fits(#[trigger] self.curves@[j]),
                path.verbs@ == skpath.verbs@ + emit_outline_prefix(self.curves@, i as int),
            decreases n - i,
        {
            path = self.curves[i].append_to_skpath(path);
            proof {
                assert(emit_outline_prefix(self.curves@, i as int + 1) == emit_outline_prefix(
                    self.curves@,
                    i as int,
                ) + emit_contour(views_of(self.curves@[i as int].curves@)));
                assert(path.verbs@ =~= skpath.verbs@ + emit_outline_prefix(
                    self.curves@,
                    i as int + 1,
                ));
            }
            i += 1;
        }
        path
    }

    /// This outline as a drawing path of its own.
    pub fn to_skpath(&self) -> (r: SkPath)
        requires
            forall|i: int| 0 <= i < self.curves@.len() ==> pwb_fits(#[trigger] self.curves@[i]),
        ensures
            r.verbs@ == emit_outline(self.curves@),
    {
        let path = SkPath::new();
        let r = self.append_to_skpath(path);
        proof {
            assert(r.verbs@ =~= emit_outline(self.curves@));
        }
        r
    }

    /// Parses a drawing path into contours of cubics, degree-elevating
    /// `Line` and `Quad` verbs, splitting subpaths on `Move` and `Close`.
    /// Any other verb kind is an unsupported primitive.
    pub fn from_skpath(path: &SkPath) -> (r: Result<Piecewise<Piecewise<Bezier>>, CurveError>)
        requires
            path_ok(path.verbs@),
        ensures
            r is Ok <==> parse_ok(path.verbs@),
            r is Ok ==> (r->Ok_0).curves@.len() == parse_result(path.verbs@).len(),
            r is Ok ==> forall|i: int|
                0 <= i < (r->Ok_0).curves@.len() ==> views_of(
                    (#[trigger] (r->Ok_0).curves@[i]).curves@,
                ) == parse_result(path.verbs@)[i],
            r is Ok ==> forall|i: int|
                0 <= i < (r->Ok_0).curves@.len() ==> pwb_fits(#[trigger] (r->Ok_0).curves@[i]),
            r is Err ==> r->Err_0 == CurveError::UnsupportedPrimitive,
    {
        let n: usize = path.verbs.len();
        let mut contours: Vec<Piecewise<Bezier>> = Vec::new();
        let mut cur: Vec<Bezier> = Vec::new();
        let mut i: usize = 0;
        while i < n
            invariant
                i <= n,
                n == path.verbs@.len(),
                path_ok(path.verbs@),
                forall|j: int| 0 <= j < i ==> !((#[trigger] path.verbs@[j]) is Conic),
                contours@.len() == parse_run(path.verbs@, i as int).done.len(),
                forall|j: int|
                    0 <= j < contours@.len() ==> views_of((#[trigger] contours@[j]).curves@)
                        == parse_run(path.verbs@, i as int).done[j],
                views_of(cur@) == parse_run(path.verbs@, i as int).cur,
                forall|j: int| 0 <= j < contours@.len() ==> pwb_fits(#[trigger] contours@[j]),
                forall|j: int| 0 <= j < cur@.len() ==> (#[trigger] cur@[j]).fits(),
            decreases n - i,
        {
            let ghost pre = parse_run(path.verbs@, i as int);
            let ghost post = parse_run(path.verbs@, i as int + 1);
            proof {
                assert(post == parse_step(pre, path.verbs@[i as int]));
            }
            let verb = path.verbs[i];
            match verb {
                PathVerb::Move(p) => {
                    if cur.len() > 0 {
                        let ghost prevc = contours@;
                        let finished = Piecewise { curves: cur };
                        contours.push(finished);
                        cur = Vec::new();
                        proof {
                            assert(forall|j: int|
                                0 <= j < prevc.len() ==> contours@[j] == prevc[j]);
                        }
                    }
                },
                PathVerb::Line(a, b) => {
                    let seg = Bezier::from_points(a, a, b, b);
                    cur.push(seg);
                },
                PathVerb::Quad(a, h, b) => {
                    let a3 = Vector {
                        x: Scalar { n: 3 * a.x.n, d: 3 },
                        y: Scalar { n: 3 * a.y.n, d: 3 },
                    };
                    let b3 = Vector {
                        x: Scalar { n: 3 * b.x.n, d: 3 },
                        y: Scalar { n: 3 * b.y.n, d: 3 },
                    };
                    let q1 = Vector {
                        x: Scalar { n: a.x.n + 2 * h.x.n, d: 3 },
                        y: Scalar { n: a.y.n + 2 * h.y.n, d: 3 },
                    };
                    let q2 = Vector {
                        x: Scalar { n: b.x.n + 2 * h.x.n, d: 3 },
                        y: Scalar { n: b.y.n + 2 * h.y.n, d: 3 },
                    };
                    let seg = Bezier::from_points(a3, q1, q2, b3);
                    cur.push(seg);
                },
                PathVerb::Cubic(a, h1, h2, b) => {
                    let seg = Bezier::from_points(a, h1, h2, b);
                    cur.push(seg);
                },
                PathVerb::Close => {
                    let ghost prevc = contours@;
                    let finished = Piecewise { curves: cur };
                    contours.push(finished);
                    cur = Vec::new();
                    proof {
                        assert(forall|j: int| 0 <= j < prevc.len() ==> contours@[j] == prevc[j]);
                    }
                },
                PathVerb::Conic(a, h, b) => {
                    return Err(CurveError::UnsupportedPrimitive);
                },
            }
            i += 1;
        }
        if cur.len() > 0 {
            let ghost prevc = contours@;
            let finished = Piecewise { curves: cur };
            contours.push(finished);
            proof {
                assert(forall|j: int| 0 <= j < prevc.len() ==> contours@[j] == prevc[j]);
            }
        }
        Ok(Piecewise { curves: contours })
    }
}

} // verus!
