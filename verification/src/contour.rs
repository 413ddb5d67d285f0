use vstd::prelude::*;
use crate::bezier::{
    bez_cp0, bez_cp1, bez_cp2, bez_cp3, from_points_spec, vec_of, Bezier, QBez, PT_LIM,
};
use crate::error::CurveError;
use crate::piecewise::{pwb_fits, Piecewise};
use crate::vector::{qv_eq, qv_small, QVec, Vector};

verus! {

/// The type tag an outline point carries: a leading `Move` marks a contour
/// that is not closed by a synthetic segment.
#[derive(Clone, Copy, Debug, PartialEq, Eq, Structural)]
pub enum PointType {
    Move,
    Curve,
}

/// A handle attached to an outline point: an absolute position, or
/// colocated with its point (zero length, degree-elevating a line).
#[derive(Clone, Copy, Debug, PartialEq, Eq, Structural)]
pub enum Handle {
    At(Vector),
    Colocated,
}

/// One point of a font outline contour: its position, its outgoing handle
/// `a`, the incoming handle `b` of the segment that ends here, and its type.
#[derive(Clone, Copy, Debug, PartialEq, Eq, Structural)]
pub struct ContourPoint {
    pub pos: Vector,
    pub a: Handle,
    pub b: Handle,
    pub ptype: PointType,
}

/// The absolute position a handle stands for: itself, or its owner when
/// colocated.
pub open spec fn handle_point(h: Handle, owner: QVec) -> QVec {
    match h {
        Handle::At(v) => v@,
        Handle::Colocated => owner,
    }
}

pub open spec fn handle_wf(h: Handle) -> bool {
    match h {
        Handle::At(v) => v.wf(),
        Handle::Colocated => true,
    }
}

pub open spec fn handle_small(h: Handle, lim: int) -> bool {
    match h {
        Handle::At(v) => qv_small(v@, lim),
        Handle::Colocated => true,
    }
}

pub open spec fn cp_wf(p: ContourPoint) -> bool {
    p.pos.wf() && handle_wf(p.a) && handle_wf(p.b)
}

pub open spec fn cp_small(p: ContourPoint, lim: int) -> bool {
    qv_small(p.pos@, lim) && handle_small(p.a, lim) && handle_small(p.b, lim)
}

/// Every point of the contour is well formed and within `PT_LIM`.
pub open spec fn contour_ok(c: Seq<ContourPoint>) -> bool {
    forall|i: int|
        0 <= i < c.len() ==> cp_wf(#[trigger] c[i]) && cp_small(c[i], PT_LIM as int)
}

/// The curve one pair of consecutive outline points stands for: the two
/// positions are the end control points, the outgoing handle of the first
/// and the incoming handle of the second are the interior ones. Colocated
/// handles duplicate their endpoint, so lines and quadratics degrade into
/// the uniform cubic form.
pub open spec fn seg_spec(p: ContourPoint, np: ContourPoint) -> QBez {
    from_points_spec(p.pos@, handle_point(p.a, p.pos@), handle_point(np.b, np.pos@), np.pos@)
}

/// The views of a sequence of curves.
pub open spec fn views_of(s: Seq<Bezier>) -> Seq<QBez> {
    s.map_values(|b: Bezier| b@)
}

/// What `from_contour` builds: one segment per consecutive pair of points,
/// and a closing segment from the last point back to the first unless the
/// first point carries a `Move` tag.
pub open spec fn from_contour_rel(c: Seq<ContourPoint>, out: Seq<QBez>) -> bool {
    let closed = c[0].ptype != PointType::Move;
    &&& out.len() == if closed {
        c.len() as int
    } else {
        c.len() - 1
    }
    &&& forall|i: int| 0 <= i < c.len() - 1 ==> out[i] == seg_spec(c[i], c[i + 1])
    &&& closed ==> out[c.len() - 1] == seg_spec(c[c.len() - 1], c[0])
}

/// The handle emitted for a recovered control point: colocated when the
/// control point coincides (as an exact rational value) with the endpoint
/// it belongs to, mirroring the degree elevation done on the way in.
pub open spec fn handle_for(cp: QVec, anchor: QVec) -> Handle {
    if qv_eq(cp, anchor) {
        Handle::Colocated
    } else {
        Handle::At(vec_of(cp))
    }
}

/// What `to_contour` builds: one point per segment, at the segment's start,
/// its outgoing handle from the segment's second control point, its
/// incoming handle back-filled from the previous segment's third control
/// point, and the first point's incoming handle from the last segment —
/// the wraparound that closes the loop.
pub open spec fn to_contour_rel(segs: Seq<QBez>, out: Seq<ContourPoint>) -> bool {
    &&& out.len() == segs.len()
    &&& forall|i: int|
        0 <= i < segs.len() ==> (#[trigger] out[i]).pos == vec_of(bez_cp0(segs[i])) && out[i].a
            == handle_for(bez_cp1(segs[i]), bez_cp0(segs[i])) && out[i].ptype == PointType::Curve
    &&& forall|i: int|
        1 <= i < segs.len() ==> (#[trigger] out[i]).b == handle_for(
            bez_cp2(segs[i - 1]),
            bez_cp3(segs[i - 1]),
        )
    &&& segs.len() > 0 ==> out[0].b == handle_for(
        bez_cp2(segs[segs.len() - 1]),
        bez_cp3(segs[segs.len() - 1]),
    )
}

impl Bezier {
    /// The cubic segment between two consecutive outline points, degree
    /// elevating lines and quadratics through their colocated handles.
    pub fn from(point: &ContourPoint, next_point: &ContourPoint) -> (r: Bezier)
        requires
            cp_wf(*point),
            cp_wf(*next_point),
            cp_small(*point, PT_LIM as int),
            cp_small(*next_point, PT_LIM as int),
        ensures
            r@ == seg_spec(*point, *next_point),
            r.fits(),
    {
        let h1 = match point.a {
            Handle::At(v) => v,
            Handle::Colocated => point.pos,
        };
        let h2 = match next_point.b {
            Handle::At(v) => v,
            Handle::Colocated => next_point.pos,
        };
        Bezier::from_points(point.pos, h1, h2, next_point.pos)
    }
}

impl Piecewise<Bezier> {
    /// One segment per consecutive pair of contour points; a closing
    /// segment back to the first point is appended unless the first point
    /// carries a `Move` tag. A contour of fewer than two points is
    /// malformed.
    pub fn from_contour(contour: &Vec<ContourPoint>) -> (r: Result<Piecewise<Bezier>, CurveError>)
        requires
            contour_ok(contour@),
        ensures
            r is Ok <==> contour@.len() >= 2,
            r is Ok ==> from_contour_rel(contour@, views_of((r->Ok_0).curves@)),
            r is Ok ==> pwb_fits(r->Ok_0),
            r is Err ==> r->Err_0 == CurveError::MalformedContour,
    {
        let k: usize = contour.len();
        if k < 2 {
            return Err(CurveError::MalformedContour);
        }
        let mut curves: Vec<Bezier> = Vec::new();
        let mut i: usize = 0;
        while i < k - 1
            invariant
                i <= k - 1,
                2 <= k == contour@.len(),
                contour_ok(contour@),
                curves@.len() == i,
                forall|j: int|
                    0 <= j < i ==> (#[trigger] curves@[j])@ == seg_spec(
                        contour@[j],
                        contour@[j + 1],
                    ),
                forall|j: int| 0 <= j < i ==> (#[trigger] curves@[j]).fits(),
            decreases k - 1 - i,
        {
            curves.push(Bezier::from(&contour[i], &contour[i + 1]));
            i += 1;
        }
        let first_type = contour[0].ptype;
        if !(first_type == PointType::Move) {
            curves.push(Bezier::from(&contour[k - 1], &contour[0]));
        }
        let r = Piecewise { curves };
        proof {
            assert(views_of(r.curves@).len() == r.curves@.len());
            assert(forall|j: int|
                0 <= j < r.curves@.len() ==> views_of(r.curves@)[j] == (#[trigger] r.curves@[j])@);
        }
        Ok(r)
    }

    /// The inverse direction: one outline point per segment, handles
    /// back-filled from the previous segment, and the first point's
    /// incoming handle set from the last segment to close the loop.
    pub fn to_contour(&self) -> (r: Result<Vec<ContourPoint>, CurveError>)
        requires
            pwb_fits(*self),
        ensures
            r is Ok <==> self.curves@.len() > 0,
            r is Ok ==> to_contour_rel(views_of(self.curves@), (r->Ok_0)@),
            r is Err ==> r->Err_0 == CurveError::EmptySequence,
    {
        let n: usize = self.curves.len();
        if n == 0 {
            return Err(CurveError::EmptySequence);
        }
        let mut out: Vec<ContourPoint> = Vec::new();
        let mut i: usize = 0;
        while i < n
            invariant
                i <= n,
                n == self.curves@.len(),
                pwb_fits(*self),
                out@.len() == i,
                forall|j: int|
                    0 <= j < i ==> (#[trigger] out@[j]).pos == vec_of(bez_cp0(self.curves@[j]@))
                        && out@[j].a == handle_for(
                        bez_cp1(self.curves@[j]@),
                        bez_cp0(self.curves@[j]@),
                    ) && out@[j].ptype == PointType::Curve,
                forall|j: int|
                    1 <= j < i ==> (#[trigger] out@[j]).b == handle_for(
                        bez_cp2(self.curves@[j - 1]@),
                        bez_cp3(self.curves@[j - 1]@),
                    ),
            decreases n - i,
        {
            let cps = self.curves[i].to_control_points();
            let a = if cps[1].eq_value(&cps[0]) {
                Handle::Colocated
            } else {
                Handle::At(cps[1])
            };
            let b = if i == 0 {
                Handle::Colocated
            } else {
                let prev = self.curves[i - 1].to_control_points();
                if prev[2].eq_value(&prev[3]) {
                    Handle::Colocated
                } else {
                    Handle::At(prev[2])
                }
            };
            proof {
                assert(cps[0] == vec_of(bez_cp0(self.curves@[i as int]@)));
                assert(cps[1] == vec_of(bez_cp1(self.curves@[i as int]@)));
            }
            out.push(ContourPoint { pos: cps[0], a, b, ptype: PointType::Curve });
            i += 1;
        }
        let last = self.curves[n - 1].to_control_points();
        let wrap = if last[2].eq_value(&last[3]) {
            Handle::Colocated
        } else {
            Handle::At(last[2])
        };
        proof {
            assert(last[2] == vec_of(bez_cp2(self.curves@[n - 1]@)));
        }
        let mut first = out[0];
        first.b = wrap;
        out.set(0, first);
        proof {
            assert(views_of(self.curves@).len() == self.curves@.len());
            assert(forall|j: int|
                0 <= j < self.curves@.len() ==> views_of(self.curves@)[j] == (
                #[trigger] self.curves@[j])@);
        }
        Ok(out)
    }
}

impl Piecewise<Piecewise<Bezier>> {
    /// One contour-level piecewise per contour of the outline; the outline
    /// level is a pure structural wrapper.
    pub fn from_outline(outline: &Vec<Vec<ContourPoint>>) -> (r: Result<
        Piecewise<Piecewise<Bezier>>,
        CurveError,
    >)
        requires
            forall|i: int| 0 <= i < outline@.len() ==> contour_ok((#[trigger] outline@[i])@),
        ensures
            r is Ok <==> (forall|i: int|
                0 <= i < outline@.len() ==> (#[trigger] outline@[i])@.len() >= 2),
            r is Ok ==> (r->Ok_0).curves@.len() == outline@.len(),
            r is Ok ==> forall|i: int|
                0 <= i < outline@.len() ==> from_contour_rel(
                    (#[trigger] outline@[i])@,
                    views_of((r->Ok_0).curves@[i].curves@),
                ),
            r is Ok ==> forall|i: int|
                0 <= i < outline@.len() ==> pwb_fits(#[trigger] (r->Ok_0).curves@[i]),
            r is Err ==> r->Err_0 == CurveError::MalformedContour,
    {
        let n: usize = outline.len();
        let mut contours: Vec<Piecewise<Bezier>> = Vec::new();
        let mut i: usize = 0;
        while i < n
            invariant
                i <= n,
                n == outline@.len(),
                forall|j: int| 0 <= j < n ==> contour_ok((#[trigger] outline@[j])@),
                contours@.len() == i,
                forall|j: int| 0 <= j < i ==> (#[trigger] outline@[j])@.len() >= 2,
                forall|j: int|
                    0 <= j < i ==> from_contour_rel(
                        (#[trigger] outline@[j])@,
                        views_of(contours@[j].curves@),
                    ),
                forall|j: int| 0 <= j < i ==> pwb_fits(#[trigger] contours@[j]),
            decreases n - i,
        {
            match Piecewise::<Bezier>::from_contour(&outline[i]) {
                Ok(c) => {
                    let ghost gc = c;
                    let ghost prev = contours@;
                    contours.push(c);
                    proof {
                        assert(contours@[i as int] == gc);
                        assert forall|j: int|
                            0 <= j < i + 1 implies from_contour_rel(
                            (#[trigger] outline@[j])@,
                            views_of(contours@[j].curves@),
                        ) by {
                            if j < i {
                                assert(contours@[j] == prev[j]);
                            }
                        }
                        assert forall|j: int| 0 <= j < i + 1 implies pwb_fits(
                            #[trigger] contours@[j],
                        ) by {
                            if j < i {
                                assert(contours@[j] == prev[j]);
                            }
                        }
                    }
                },
                Err(e) => {
                    return Err(e);
                },
            }
            i += 1;
        }
        Ok(Piecewise { curves: contours })
    }

    /// The inverse direction: one contour per contour-level piecewise.
    pub fn to_outline(&self) -> (r: Result<Vec<Vec<ContourPoint>>, CurveError>)
        requires
            forall|i: int| 0 <= i < self.curves@.len() ==> pwb_fits(#[trigger] self.curves@[i]),
        ensures
            r is Ok <==> (forall|i: int|
                0 <= i < self.curves@.len() ==> (#[trigger] self.curves@[i]).curves@.len() > 0),
            r is Ok ==> (r->Ok_0)@.len() == self.curves@.len(),
            r is Ok ==> forall|i: int|
                0 <= i < self.curves@.len() ==> to_contour_rel(
                    views_of((#[trigger] self.curves@[i]).curves@),
                    (r->Ok_0)@[i]@,
                ),
            r is Err ==> r->Err_0 == CurveError::EmptySequence,
    {
        let n: usize = self.curves.len();
        let mut out: Vec<Vec<ContourPoint>> = Vec::new();
        let mut i: usize = 0;
        while i < n
            invariant
                i <= n,
                n == self.curves@.len(),
                forall|j: int| 0 <= j < n ==> pwb_fits(#[trigger] self.curves@[j]),
                out@.len() == i,
                forall|j: int| 0 <= j < i ==> (#[trigger] self.curves@[j]).curves@.len() > 0,
                forall|j: int|
                    0 <= j < i ==> to_contour_rel(
                        views_of((#[trigger] self.curves@[j]).curves@),
                        out@[j]@,
                    ),
            decreases n - i,
        {
            match self.curves[i].to_contour() {
                Ok(c) => {
                    out.push(c);
                },
                Err(e) => {
                    return Err(e);
                },
            }
            i += 1;
        }
        Ok(out)
    }
}

} // verus!
