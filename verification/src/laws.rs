use vstd::prelude::*;
use crate::bezier::{
    axis_den, axis_num0, axis_num1, axis_num2, axis_num3, axis_same_den, bez_cp0, bez_cp1,
    bez_cp2, bez_cp3, bez_eval, eval_x_num, eval_y_num, from_points_spec, qbez_fits, subdiv_left,
    subdiv_right, vec_of, qbez_wf, QBez, COEFF_LIM,
};
use crate::contour::{
    contour_ok, from_contour_rel, handle_for, handle_point, to_contour_rel, ContourPoint, Handle,
    PointType,
};
use crate::evaluate::Evaluate;
use crate::piecewise::{pw_index, pw_local, Piecewise};
use crate::vector::{
    lemma_q_eq_trans, q_eq, q_wf, qv_eq, qv_wf, Q, QVec,
};

verus! {

/// Rational equality of vectors is transitive.
pub proof fn lemma_qv_eq_trans(a: QVec, b: QVec, c: QVec)
    requires
        qv_wf(a),
        qv_wf(b),
        qv_wf(c),
        qv_eq(a, b),
        qv_eq(b, c),
    ensures
        qv_eq(a, c),
{
    lemma_q_eq_trans(a.x, b.x, c.x);
    lemma_q_eq_trans(a.y, b.y, c.y);
}

/// One axis of the round-trip law: each numerator over the common
/// denominator denotes the same rational as the scalar it came from.
proof fn lemma_axis_scaling(x0: Q, x1: Q, x2: Q, x3: Q)
    requires
        q_wf(x0),
        q_wf(x1),
        q_wf(x2),
        q_wf(x3),
    ensures
        q_eq(Q { n: axis_num0(x0, x1, x2, x3), d: axis_den(x0, x1, x2, x3) }, x0),
        q_eq(Q { n: axis_num1(x0, x1, x2, x3), d: axis_den(x0, x1, x2, x3) }, x1),
        q_eq(Q { n: axis_num2(x0, x1, x2, x3), d: axis_den(x0, x1, x2, x3) }, x2),
        q_eq(Q { n: axis_num3(x0, x1, x2, x3), d: axis_den(x0, x1, x2, x3) }, x3),
        axis_den(x0, x1, x2, x3) >= 1,
{
    if axis_same_den(x0, x1, x2, x3) {
    } else {
        assert((x0.n * ((x1.d * x2.d) * x3.d)) * x0.d == x0.n * (((x0.d * x1.d) * x2.d) * x3.d))
            by (nonlinear_arith);
        assert((x1.n * ((x0.d * x2.d) * x3.d)) * x1.d == x1.n * (((x0.d * x1.d) * x2.d) * x3.d))
            by (nonlinear_arith);
        assert((x2.n * ((x0.d * x1.d) * x3.d)) * x2.d == x2.n * (((x0.d * x1.d) * x2.d) * x3.d))
            by (nonlinear_arith);
        assert((x3.n * ((x0.d * x1.d) * x2.d)) * x3.d == x3.n * (((x0.d * x1.d) * x2.d) * x3.d))
            by (nonlinear_arith);
        assert(((x0.d * x1.d) * x2.d) * x3.d >= 1) by (nonlinear_arith)
            requires
                x0.d >= 1,
                x1.d >= 1,
                x2.d >= 1,
                x3.d >= 1,
        ;
    }
}

/// Round-trip identity: the control points recovered from the curve built
/// over any four control points denote exactly the points that were given.
pub proof fn lemma_from_points_round_trip(p0: QVec, p1: QVec, p2: QVec, p3: QVec)
    requires
        qv_wf(p0),
        qv_wf(p1),
        qv_wf(p2),
        qv_wf(p3),
    ensures
        qv_eq(bez_cp0(from_points_spec(p0, p1, p2, p3)), p0),
        qv_eq(bez_cp1(from_points_spec(p0, p1, p2, p3)), p1),
        qv_eq(bez_cp2(from_points_spec(p0, p1, p2, p3)), p2),
        qv_eq(bez_cp3(from_points_spec(p0, p1, p2, p3)), p3),
        qbez_wf(from_points_spec(p0, p1, p2, p3)),
{
    lemma_axis_scaling(p0.x, p1.x, p2.x, p3.x);
    lemma_axis_scaling(p0.y, p1.y, p2.y, p3.y);
}

/// Products with the literal parameter values zero and one, which appear
/// when a curve is evaluated at the ends of its domain.
proof fn lemma_unit(x: int) by (nonlinear_arith)
    ensures
        x * ((1 * 1) * 1) == x,
        x * (1 * (1 * 1)) == x,
        x * ((0 * 0) * 0) == 0,
        x * ((0 * 0) * 1) == 0,
        x * (0 * (1 * 1)) == 0,
{
}

/// Evaluation boundary: the curve at parameter zero is its first control
/// point and at parameter one its fourth, exactly.
pub proof fn lemma_eval_endpoints(v: QBez)
    ensures
        bez_eval(v, 0, 1) == bez_cp0(v),
        bez_eval(v, 1, 1) == bez_cp3(v),
{
    lemma_unit(v.xa);
    lemma_unit(3 * v.xb3);
    lemma_unit(3 * v.xc3);
    lemma_unit(v.xd);
    lemma_unit(v.xden);
    lemma_unit(v.ya);
    lemma_unit(3 * v.yb3);
    lemma_unit(3 * v.yc3);
    lemma_unit(v.yd);
    lemma_unit(v.yden);
}

/// Subdivision coverage: evaluating the left half at its right end and the
/// right half at its left end both give exactly the original curve's value
/// at the splitting parameter — the halves share that point and cover the
/// curve.
pub proof fn lemma_subdivide_coverage(v: QBez, tn: int, td: int)
    ensures
        bez_eval(subdiv_left(v, tn, td), 1, 1) == bez_eval(v, tn, td),
        bez_eval(subdiv_right(v, tn, td), 0, 1) == bez_eval(v, tn, td),
{
    let l = subdiv_left(v, tn, td);
    let r = subdiv_right(v, tn, td);
    lemma_unit(l.xa);
    lemma_unit(3 * l.xb3);
    lemma_unit(3 * l.xc3);
    lemma_unit(l.xd);
    lemma_unit(l.xden);
    lemma_unit(l.ya);
    lemma_unit(3 * l.yb3);
    lemma_unit(3 * l.yc3);
    lemma_unit(l.yd);
    lemma_unit(l.yden);
    lemma_unit(r.xa);
    lemma_unit(3 * r.xb3);
    lemma_unit(3 * r.xc3);
    lemma_unit(r.xd);
    lemma_unit(r.xden);
    lemma_unit(r.ya);
    lemma_unit(3 * r.yb3);
    lemma_unit(3 * r.yc3);
    lemma_unit(r.yd);
    lemma_unit(r.yden);
    assert(eval_x_num(l, 1, 1) == l.xa + 3 * l.xb3 + 3 * l.xc3 + l.xd);
    assert(eval_y_num(l, 1, 1) == l.ya + 3 * l.yb3 + 3 * l.yc3 + l.yd);
    assert(eval_x_num(l, 1, 1) == eval_x_num(v, tn, td)) by (nonlinear_arith)
        requires
            eval_x_num(l, 1, 1) == l.xa + 3 * l.xb3 + 3 * l.xc3 + l.xd,
            l.xa == v.xa * ((tn * tn) * tn),
            l.xb3 == v.xb3 * ((tn * tn) * td),
            l.xc3 == v.xc3 * (tn * (td * td)),
            l.xd == v.xd * ((td * td) * td),
            eval_x_num(v, tn, td) == v.xa * ((tn * tn) * tn) + (3 * v.xb3) * ((tn * tn) * td) + (3
                * v.xc3) * (tn * (td * td)) + v.xd * ((td * td) * td),
    ;
    assert(eval_y_num(l, 1, 1) == eval_y_num(v, tn, td)) by (nonlinear_arith)
        requires
            eval_y_num(l, 1, 1) == l.ya + 3 * l.yb3 + 3 * l.yc3 + l.yd,
            l.ya == v.ya * ((tn * tn) * tn),
            l.yb3 == v.yb3 * ((tn * tn) * td),
            l.yc3 == v.yc3 * (tn * (td * td)),
            l.yd == v.yd * ((td * td) * td),
            eval_y_num(v, tn, td) == v.ya * ((tn * tn) * tn) + (3 * v.yb3) * ((tn * tn) * td) + (3
                * v.yc3) * (tn * (td * td)) + v.yd * ((td * td) * td),
    ;
    assert(eval_x_num(r, 0, 1) == r.xd);
    assert(eval_y_num(r, 0, 1) == r.yd);
}

/// Piecewise parameter partition: the parameter `k / n` over `n` segments
/// lands exactly at the start of segment `k`, and the parameter one lands
/// at the end of the last segment rather than out of range.
pub proof fn lemma_partition_index(n: int, k: int)
    requires
        1 <= n,
        0 <= k <= n,
    ensures
        k < n ==> pw_index(n, k, n) == k && pw_local(n, k, n) == 0,
        k == n ==> pw_index(n, k, n) == n - 1 && pw_local(n, k, n) == n,
{
    assert(n * k == k * n) by (nonlinear_arith);
    vstd::arithmetic::div_mod::lemma_div_multiples_vanish(k, n);
    assert((n - 1) * n == n * n - n) by (nonlinear_arith);
}

/// The partition law at the level of a piecewise curve: evaluating at
/// `k / n` is evaluating segment `k` at its own start, and evaluating at
/// one is evaluating the last segment at its own end.
pub proof fn lemma_piecewise_partition<T: Evaluate>(p: Piecewise<T>, k: int)
    requires
        1 <= p.curves@.len(),
        0 <= k <= p.curves@.len(),
    ensures
        k < p.curves@.len() ==> p.eval_of(k, p.curves@.len() as int) == p.curves@[k].eval_of(
            0,
            p.curves@.len() as int,
        ),
        k == p.curves@.len() ==> p.eval_of(k, p.curves@.len() as int)
            == p.curves@[p.curves@.len() - 1].eval_of(
            p.curves@.len() as int,
            p.curves@.len() as int,
        ),
{
    lemma_partition_index(p.curves@.len() as int, k);
}

/// Two handles carry the same geometry: both colocated, or both absolute
/// at the same rational position.
pub open spec fn handle_equiv(h1: Handle, h2: Handle) -> bool {
    match (h1, h2) {
        (Handle::Colocated, Handle::Colocated) => true,
        (Handle::At(u), Handle::At(v)) => qv_eq(u@, v@),
        _ => false,
    }
}

/// A handle in canonical form: an absolute handle never coincides with the
/// point that owns it — a coinciding one is written `Colocated`.
pub open spec fn handle_canonical(h: Handle, owner: QVec) -> bool {
    match h {
        Handle::At(v) => !qv_eq(v@, owner),
        Handle::Colocated => true,
    }
}

/// Every point of the contour carries the `Curve` tag and canonical
/// handles.
pub open spec fn contour_canonical(c: Seq<ContourPoint>) -> bool {
    forall|i: int|
        0 <= i < c.len() ==> (#[trigger] c[i]).ptype == PointType::Curve && handle_canonical(
            c[i].a,
            c[i].pos@,
        ) && handle_canonical(c[i].b, c[i].pos@)
}

/// Closed-contour reconnection: converting a closed contour to curves and
/// back reproduces the same point count, the same positions, and the same
/// incoming and outgoing handles at every point, including the wraparound
/// handle at the first point.
pub proof fn lemma_contour_round_trip(c: Seq<ContourPoint>, segs: Seq<QBez>, out: Seq<
    ContourPoint,
>)
    requires
        c.len() >= 2,
        contour_ok(c),
        contour_canonical(c),
        from_contour_rel(c, segs),
        to_contour_rel(segs, out),
        forall|i: int| 0 <= i < segs.len() ==> qbez_fits(#[trigger] segs[i], COEFF_LIM as int),
    ensures
        out.len() == c.len(),
        forall|i: int|
            0 <= i < c.len() ==> qv_eq((#[trigger] out[i]).pos@, c[i].pos@) && out[i].ptype
                == c[i].ptype && handle_equiv(out[i].a, c[i].a) && handle_equiv(out[i].b, c[i].b),
{
    let k = c.len() as int;
    assert(c[0].ptype != PointType::Move);
    assert(segs.len() == k);
    assert forall|i: int|
        0 <= i < k implies qv_eq((#[trigger] out[i]).pos@, c[i].pos@) && out[i].ptype
        == c[i].ptype && handle_equiv(out[i].a, c[i].a) && handle_equiv(out[i].b, c[i].b) by {
        let np: int = if i == k - 1 {
            0
        } else {
            i + 1
        };
        let pi: int = if i == 0 {
            k - 1
        } else {
            i - 1
        };
        assert(segs[i] == from_points_spec(
            c[i].pos@,
            handle_point(c[i].a, c[i].pos@),
            handle_point(c[np].b, c[np].pos@),
            c[np].pos@,
        ));
        assert(segs[pi] == from_points_spec(
            c[pi].pos@,
            handle_point(c[pi].a, c[pi].pos@),
            handle_point(c[i].b, c[i].pos@),
            c[i].pos@,
        ));
        lemma_from_points_round_trip(
            c[i].pos@,
            handle_point(c[i].a, c[i].pos@),
            handle_point(c[np].b, c[np].pos@),
            c[np].pos@,
        );
        lemma_from_points_round_trip(
            c[pi].pos@,
            handle_point(c[pi].a, c[pi].pos@),
            handle_point(c[i].b, c[i].pos@),
            c[i].pos@,
        );
        let v = segs[i];
        let w = segs[pi];
        assert(vec_of(bez_cp0(v))@ == bez_cp0(v));
        assert(vec_of(bez_cp1(v))@ == bez_cp1(v));
        assert(vec_of(bez_cp2(w))@ == bez_cp2(w));
        // position: the recovered first control point denotes the original
        // point.
        assert(qv_eq(out[i].pos@, c[i].pos@));
        // outgoing handle of point i, from the second control point of
        // segment i.
        match c[i].a {
            Handle::Colocated => {
                lemma_qv_eq_trans(bez_cp1(v), c[i].pos@, bez_cp0(v));
                assert(qv_eq(bez_cp1(v), bez_cp0(v)));
                assert(out[i].a == Handle::Colocated);
            },
            Handle::At(h) => {
                if qv_eq(bez_cp1(v), bez_cp0(v)) {
                    lemma_qv_eq_trans(h@, bez_cp1(v), bez_cp0(v));
                    lemma_qv_eq_trans(h@, bez_cp0(v), c[i].pos@);
                    assert(false);
                }
                assert(out[i].a == Handle::At(vec_of(bez_cp1(v))));
            },
        }
        // incoming handle of point i, back-filled from the third control
        // point of the segment that ends here.
        if i == 0 {
            assert(out[0].b == handle_for(bez_cp2(segs[k - 1]), bez_cp3(segs[k - 1])));
        } else {
            assert(out[i].b == handle_for(bez_cp2(segs[i - 1]), bez_cp3(segs[i - 1])));
        }
        assert(out[i].b == handle_for(bez_cp2(w), bez_cp3(w)));
        match c[i].b {
            Handle::Colocated => {
                lemma_qv_eq_trans(bez_cp2(w), c[i].pos@, bez_cp3(w));
                assert(qv_eq(bez_cp2(w), bez_cp3(w)));
                assert(out[i].b == Handle::Colocated);
            },
            Handle::At(h) => {
                if qv_eq(bez_cp2(w), bez_cp3(w)) {
                    lemma_qv_eq_trans(h@, bez_cp2(w), bez_cp3(w));
                    lemma_qv_eq_trans(h@, bez_cp3(w), c[i].pos@);
                    assert(false);
                }
                assert(out[i].b == Handle::At(vec_of(bez_cp2(w))));
            },
        }
    }
}

/// The affine combination `(1 - w) a + w b` with weight `wn / wd`, over the
/// product denominator.
pub open spec fn lerp_pt(a: QVec, b: QVec, wn: int, wd: int) -> QVec {
    QVec {
        x: Q {
            n: (a.x.n * (wd - wn)) * b.x.d + (b.x.n * wn) * a.x.d,
            d: (a.x.d * b.x.d) * wd,
        },
        y: Q {
            n: (a.y.n * (wd - wn)) * b.y.d + (b.y.n * wn) * a.y.d,
            d: (a.y.d * b.y.d) * wd,
        },
    }
}

/// One axis of the degree-elevation law: the cubic built from duplicated
/// endpoint numerators `na, nb` over `dd` evaluates to the affine
/// combination of the two scalars with weight `t^2 (3 - 2t)`.
#[verifier::rlimit(100)]
proof fn lemma_line_eval_axis(a: Q, b: Q, na: int, nb: int, dd: int, tn: int, td: int)
    requires
        q_wf(a),
        q_wf(b),
        1 <= dd,
        na * a.d == a.n * dd,
        nb * b.d == b.n * dd,
    ensures
        ({
            let w = (tn * tn) * (3 * td - 2 * tn);
            let c3 = (td * td) * td;
            q_eq(
                Q {
                    n: (2 * na - 2 * nb) * ((tn * tn) * tn) + (3 * (nb - na)) * ((tn * tn) * td)
                        + na * ((td * td) * td),
                    d: dd * c3,
                },
                Q { n: (a.n * (c3 - w)) * b.d + (b.n * w) * a.d, d: (a.d * b.d) * c3 },
            )
        }),
{
    let w = (tn * tn) * (3 * td - 2 * tn);
    let c3 = (td * td) * td;
    let num = (2 * na - 2 * nb) * ((tn * tn) * tn) + (3 * (nb - na)) * ((tn * tn) * td) + na * ((td
        * td) * td);
    assert(num == na * (c3 - w) + nb * w) by (nonlinear_arith)
        requires
            w == (tn * tn) * (3 * td - 2 * tn),
            c3 == (td * td) * td,
            num == (2 * na - 2 * nb) * ((tn * tn) * tn) + (3 * (nb - na)) * ((tn * tn) * td) + na
                * ((td * td) * td),
    ;
    let u = c3 - w;
    let p = a.d * b.d;
    assert((na * u + nb * w) * (p * c3) == ((na * u) * p) * c3 + ((nb * w) * p) * c3)
        by (nonlinear_arith);
    assert((na * u) * p == ((a.n * u) * b.d) * dd) by (nonlinear_arith)
        requires
            na * a.d == a.n * dd,
            p == a.d * b.d,
    ;
    assert((nb * w) * p == ((b.n * w) * a.d) * dd) by (nonlinear_arith)
        requires
            nb * b.d == b.n * dd,
            p == a.d * b.d,
    ;
    assert((((a.n * u) * b.d) * dd) * c3 + (((b.n * w) * a.d) * dd) * c3 == ((a.n * u) * b.d + (b.n
        * w) * a.d) * (dd * c3)) by (nonlinear_arith);
}

/// Degree-elevation correctness: a straight two-point segment, elevated to
/// cubic form by duplicating its endpoints, evaluates for every parameter
/// to a point exactly on the segment: the affine combination of the two
/// endpoints with weight `w = t^2 (3 - 2t)`, which stays within `[0, 1]`
/// for `t` within `[0, 1]` and reaches the endpoints at zero and one.
pub proof fn lemma_line_elevation(a: QVec, b: QVec, tn: int, td: int)
    requires
        qv_wf(a),
        qv_wf(b),
        0 <= tn <= td,
        1 <= td,
    ensures
        ({
            let w = (tn * tn) * (3 * td - 2 * tn);
            let c3 = (td * td) * td;
            &&& 0 <= w <= c3
            &&& qv_eq(bez_eval(from_points_spec(a, a, b, b), tn, td), lerp_pt(a, b, w, c3))
            &&& (tn == 0 ==> w == 0)
            &&& (tn == td ==> w == c3)
        }),
{
    let w = (tn * tn) * (3 * td - 2 * tn);
    let c3 = (td * td) * td;
    assert(0 <= w) by (nonlinear_arith)
        requires
            0 <= tn <= td,
            w == (tn * tn) * (3 * td - 2 * tn),
    ;
    assert(c3 - w == ((td - tn) * (td - tn)) * (td + 2 * tn)) by (nonlinear_arith)
        requires
            w == (tn * tn) * (3 * td - 2 * tn),
            c3 == (td * td) * td,
    ;
    assert(((td - tn) * (td - tn)) * (td + 2 * tn) >= 0) by (nonlinear_arith)
        requires
            0 <= tn <= td,
    ;
    assert(tn == td ==> w == c3) by (nonlinear_arith)
        requires
            w == (tn * tn) * (3 * td - 2 * tn),
            c3 == (td * td) * td,
    ;
    let v = from_points_spec(a, a, b, b);
    lemma_axis_scaling(a.x, a.x, b.x, b.x);
    lemma_axis_scaling(a.y, a.y, b.y, b.y);
    let nax = axis_num0(a.x, a.x, b.x, b.x);
    let nbx = axis_num2(a.x, a.x, b.x, b.x);
    let ddx = axis_den(a.x, a.x, b.x, b.x);
    assert(axis_num1(a.x, a.x, b.x, b.x) == nax);
    assert(axis_num3(a.x, a.x, b.x, b.x) == nbx);
    assert(v.xa == 2 * nax - 2 * nbx && v.xb3 == nbx - nax && v.xc3 == 0 && v.xd == nax && v.xden
        == ddx);
    lemma_line_eval_axis(a.x, b.x, nax, nbx, ddx, tn, td);
    assert(eval_x_num(v, tn, td) == (2 * nax - 2 * nbx) * ((tn * tn) * tn) + (3 * (nbx - nax)) * ((
    tn * tn) * td) + nax * ((td * td) * td)) by (nonlinear_arith)
        requires
            v.xa == 2 * nax - 2 * nbx,
            v.xb3 == nbx - nax,
            v.xc3 == 0,
            v.xd == nax,
            eval_x_num(v, tn, td) == v.xa * ((tn * tn) * tn) + (3 * v.xb3) * ((tn * tn) * td) + (3
                * v.xc3) * (tn * (td * td)) + v.xd * ((td * td) * td),
    ;
    let nay = axis_num0(a.y, a.y, b.y, b.y);
    let nby = axis_num2(a.y, a.y, b.y, b.y);
    let ddy = axis_den(a.y, a.y, b.y, b.y);
    assert(axis_num1(a.y, a.y, b.y, b.y) == nay);
    assert(axis_num3(a.y, a.y, b.y, b.y) == nby);
    assert(v.ya == 2 * nay - 2 * nby && v.yb3 == nby - nay && v.yc3 == 0 && v.yd == nay && v.yden
        == ddy);
    lemma_line_eval_axis(a.y, b.y, nay, nby, ddy, tn, td);
    assert(eval_y_num(v, tn, td) == (2 * nay - 2 * nby) * ((tn * tn) * tn) + (3 * (nby - nay)) * ((
    tn * tn) * td) + nay * ((td * td) * td)) by (nonlinear_arith)
        requires
            v.ya == 2 * nay - 2 * nby,
            v.yb3 == nby - nay,
            v.yc3 == 0,
            v.yd == nay,
            eval_y_num(v, tn, td) == v.ya * ((tn * tn) * tn) + (3 * v.yb3) * ((tn * tn) * td) + (3
                * v.yc3) * (tn * (td * td)) + v.yd * ((td * td) * td),
    ;
}


} // verus!
