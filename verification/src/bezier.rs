use vstd::prelude::*;
use crate::error::CurveError;
use crate::evaluate::{Evaluate, T_LIM};
use crate::rect::{QRect, Rect};
use crate::vector::{lemma_mul_bound, lemma_mul_pos, q_small, qv_small, Q, QVec, Scalar, Vector};

verus! {

/// Largest magnitude allowed for a stored polynomial coefficient entry.
pub const COEFF_LIM: i128 = 1_000_000_000_000_000_000;

/// Largest magnitude allowed for a control point handed to `from_points`.
pub const FP_LIM: i128 = 1_000_000_000;

/// Magnitude under which `from_points` yields a curve within `COEFF_LIM`
/// whatever the denominators of its inputs.
pub const PT_LIM: i128 = 10_000;

/// The specification-level value of a `Bezier`: the exact integers it stores.
/// `xa / xden` is the cubic coefficient of `x(t)`; `xb3` and `xc3` hold one
/// third of the quadratic and linear coefficients, which the expansion from
/// control points always permits; `xd / xden` is the constant coefficient.
/// The `y` fields describe `y(t)` the same way.
pub ghost struct QBez {
    pub xa: int,
    pub xb3: int,
    pub xc3: int,
    pub xd: int,
    pub xden: int,
    pub ya: int,
    pub yb3: int,
    pub yc3: int,
    pub yd: int,
    pub yden: int,
}

pub open spec fn qbez_wf(v: QBez) -> bool {
    v.xden >= 1 && v.yden >= 1
}

/// The representation bounds under which evaluation, differentiation,
/// bounding and subdivision stay within `i128`.
pub open spec fn qbez_fits(v: QBez, lim: int) -> bool {
    &&& qbez_wf(v)
    &&& -lim <= v.xa <= lim
    &&& -lim <= v.xb3 <= lim
    &&& -lim <= v.xc3 <= lim
    &&& -lim <= v.xd <= lim
    &&& v.xden <= lim
    &&& -lim <= v.ya <= lim
    &&& -lim <= v.yb3 <= lim
    &&& -lim <= v.yc3 <= lim
    &&& -lim <= v.yd <= lim
    &&& v.yden <= lim
}

/// First control point: `(D, H)`.
pub open spec fn bez_cp0(v: QBez) -> QVec {
    QVec { x: Q { n: v.xd, d: v.xden }, y: Q { n: v.yd, d: v.yden } }
}

/// Second control point: `(D + C/3, H + G/3)`.
pub open spec fn bez_cp1(v: QBez) -> QVec {
    QVec { x: Q { n: v.xd + v.xc3, d: v.xden }, y: Q { n: v.yd + v.yc3, d: v.yden } }
}

/// Third control point: `(D + 2C/3 + B/3, H + 2G/3 + F/3)`.
pub open spec fn bez_cp2(v: QBez) -> QVec {
    QVec {
        x: Q { n: (v.xd + 2 * v.xc3) + v.xb3, d: v.xden },
        y: Q { n: (v.yd + 2 * v.yc3) + v.yb3, d: v.yden },
    }
}

/// Fourth control point: `(D + C + B + A, H + G + F + E)`.
pub open spec fn bez_cp3(v: QBez) -> QVec {
    QVec {
        x: Q { n: ((v.xd + 3 * v.xc3) + 3 * v.xb3) + v.xa, d: v.xden },
        y: Q { n: ((v.yd + 3 * v.yc3) + 3 * v.yb3) + v.ya, d: v.yden },
    }
}

/// Numerator of `x(tn/td)` over the denominator `xden * td^3`: the cubic
/// `A tn^3 + B tn^2 td + C tn td^2 + D td^3` with `B = 3 xb3`, `C = 3 xc3`.
pub open spec fn eval_x_num(v: QBez, tn: int, td: int) -> int {
    v.xa * ((tn * tn) * tn) + (3 * v.xb3) * ((tn * tn) * td) + (3 * v.xc3) * (tn * (td * td))
        + v.xd * ((td * td) * td)
}

pub open spec fn eval_y_num(v: QBez, tn: int, td: int) -> int {
    v.ya * ((tn * tn) * tn) + (3 * v.yb3) * ((tn * tn) * td) + (3 * v.yc3) * (tn * (td * td))
        + v.yd * ((td * td) * td)
}

/// The exact position of the cubic at parameter `tn / td`.
pub open spec fn bez_eval(v: QBez, tn: int, td: int) -> QVec {
    QVec {
        x: Q { n: eval_x_num(v, tn, td), d: v.xden * ((td * td) * td) },
        y: Q { n: eval_y_num(v, tn, td), d: v.yden * ((td * td) * td) },
    }
}

/// Numerator of `x'(tn/td)` over the denominator `xden * td^2`: the
/// derivative `3 A tn^2 + 2 B tn td + C td^2`.
pub open spec fn deriv_x_num(v: QBez, tn: int, td: int) -> int {
    3 * ((v.xa * (tn * tn) + 2 * (v.xb3 * (tn * td))) + v.xc3 * (td * td))
}

pub open spec fn deriv_y_num(v: QBez, tn: int, td: int) -> int {
    3 * ((v.ya * (tn * tn) + 2 * (v.yb3 * (tn * td))) + v.yc3 * (td * td))
}

/// The exact tangent of the cubic at parameter `tn / td`.
pub open spec fn bez_deriv(v: QBez, tn: int, td: int) -> QVec {
    QVec {
        x: Q { n: deriv_x_num(v, tn, td), d: v.xden * (td * td) },
        y: Q { n: deriv_y_num(v, tn, td), d: v.yden * (td * td) },
    }
}

pub open spec fn imin(a: int, b: int) -> int {
    if a <= b {
        a
    } else {
        b
    }
}

pub open spec fn imax(a: int, b: int) -> int {
    if a <= b {
        b
    } else {
        a
    }
}

/// The axis-aligned box of the four control points. All four share one
/// denominator per axis, so the extreme numerators decide the edges.
pub open spec fn bez_box(v: QBez) -> QRect {
    let x0 = v.xd;
    let x1 = v.xd + v.xc3;
    let x2 = (v.xd + 2 * v.xc3) + v.xb3;
    let x3 = ((v.xd + 3 * v.xc3) + 3 * v.xb3) + v.xa;
    let y0 = v.yd;
    let y1 = v.yd + v.yc3;
    let y2 = (v.yd + 2 * v.yc3) + v.yb3;
    let y3 = ((v.yd + 3 * v.yc3) + 3 * v.yb3) + v.ya;
    QRect {
        left: Q { n: imin(imin(x0, x1), imin(x2, x3)), d: v.xden },
        bottom: Q { n: imin(imin(y0, y1), imin(y2, y3)), d: v.yden },
        right: Q { n: imax(imax(x0, x1), imax(x2, x3)), d: v.xden },
        top: Q { n: imax(imax(y0, y1), imax(y2, y3)), d: v.yden },
    }
}

/// Whether the four scalars share one denominator, in which case
/// `from_points` keeps it instead of forming the product.
pub open spec fn axis_same_den(x0: Q, x1: Q, x2: Q, x3: Q) -> bool {
    x0.d == x1.d && x1.d == x2.d && x2.d == x3.d
}

/// The common denominator `from_points` brings the four scalars to.
pub open spec fn axis_den(x0: Q, x1: Q, x2: Q, x3: Q) -> int {
    if axis_same_den(x0, x1, x2, x3) {
        x0.d
    } else {
        ((x0.d * x1.d) * x2.d) * x3.d
    }
}

/// The numerators of the four scalars over `axis_den`.
pub open spec fn axis_num0(x0: Q, x1: Q, x2: Q, x3: Q) -> int {
    if axis_same_den(x0, x1, x2, x3) {
        x0.n
    } else {
        x0.n * ((x1.d * x2.d) * x3.d)
    }
}

pub open spec fn axis_num1(x0: Q, x1: Q, x2: Q, x3: Q) -> int {
    if axis_same_den(x0, x1, x2, x3) {
        x1.n
    } else {
        x1.n * ((x0.d * x2.d) * x3.d)
    }
}

pub open spec fn axis_num2(x0: Q, x1: Q, x2: Q, x3: Q) -> int {
    if axis_same_den(x0, x1, x2, x3) {
        x2.n
    } else {
        x2.n * ((x0.d * x1.d) * x3.d)
    }
}

pub open spec fn axis_num3(x0: Q, x1: Q, x2: Q, x3: Q) -> int {
    if axis_same_den(x0, x1, x2, x3) {
        x3.n
    } else {
        x3.n * ((x0.d * x1.d) * x2.d)
    }
}

/// The exact curve `from_points` builds: the algebraic expansion
/// `A = x3 - 3 x2 + 3 x1 - x0`, `B = 3 x2 - 6 x1 + 3 x0`,
/// `C = 3 x1 - 3 x0`, `D = x0` over the common denominator, per axis.
pub open spec fn from_points_spec(p0: QVec, p1: QVec, p2: QVec, p3: QVec) -> QBez {
    let x0 = axis_num0(p0.x, p1.x, p2.x, p3.x);
    let x1 = axis_num1(p0.x, p1.x, p2.x, p3.x);
    let x2 = axis_num2(p0.x, p1.x, p2.x, p3.x);
    let x3 = axis_num3(p0.x, p1.x, p2.x, p3.x);
    let y0 = axis_num0(p0.y, p1.y, p2.y, p3.y);
    let y1 = axis_num1(p0.y, p1.y, p2.y, p3.y);
    let y2 = axis_num2(p0.y, p1.y, p2.y, p3.y);
    let y3 = axis_num3(p0.y, p1.y, p2.y, p3.y);
    QBez {
        xa: ((x3 - 3 * x2) + 3 * x1) - x0,
        xb3: (x2 - 2 * x1) + x0,
        xc3: x1 - x0,
        xd: x0,
        xden: axis_den(p0.x, p1.x, p2.x, p3.x),
        ya: ((y3 - 3 * y2) + 3 * y1) - y0,
        yb3: (y2 - 2 * y1) + y0,
        yc3: y1 - y0,
        yd: y0,
        yden: axis_den(p0.y, p1.y, p2.y, p3.y),
    }
}

/// The left half of a subdivision at `tn / td`: the reparameterization
/// `x(t * s)` of the cubic, in coefficient form over `xden * td^3`.
pub open spec fn subdiv_left(v: QBez, tn: int, td: int) -> QBez {
    QBez {
        xa: v.xa * ((tn * tn) * tn),
        xb3: v.xb3 * ((tn * tn) * td),
        xc3: v.xc3 * (tn * (td * td)),
        xd: v.xd * ((td * td) * td),
        xden: v.xden * ((td * td) * td),
        ya: v.ya * ((tn * tn) * tn),
        yb3: v.yb3 * ((tn * tn) * td),
        yc3: v.yc3 * (tn * (td * td)),
        yd: v.yd * ((td * td) * td),
        yden: v.yden * ((td * td) * td),
    }
}

/// The right half of a subdivision at `tn / td`: the reparameterization
/// `x(t + (1 - t) s)`, in coefficient form over `xden * td^3`. Its constant
/// coefficients are exactly the evaluation numerators at `tn / td`.
pub open spec fn subdiv_right(v: QBez, tn: int, td: int) -> QBez {
    let m = td - tn;
    QBez {
        xa: v.xa * ((m * m) * m),
        xb3: (v.xa * tn + v.xb3 * td) * (m * m),
        xc3: ((v.xa * (tn * tn) + 2 * (v.xb3 * (tn * td))) + v.xc3 * (td * td)) * m,
        xd: eval_x_num(v, tn, td),
        xden: v.xden * ((td * td) * td),
        ya: v.ya * ((m * m) * m),
        yb3: (v.ya * tn + v.yb3 * td) * (m * m),
        yc3: ((v.ya * (tn * tn) + 2 * (v.yb3 * (tn * td))) + v.yc3 * (td * td)) * m,
        yd: eval_y_num(v, tn, td),
        yden: v.yden * ((td * td) * td),
    }
}

/// The `Vector` whose coordinates carry the given rational pair.
pub open spec fn vec_of(q: QVec) -> Vector {
    Vector {
        x: Scalar { n: q.x.n as i128, d: q.x.d as i128 },
        y: Scalar { n: q.y.n as i128, d: q.y.d as i128 },
    }
}

/// One axis worth of coefficients produced by `expand_axis`.
struct AxisCoeffs {
    a: i128,
    b3: i128,
    c3: i128,
    d: i128,
    den: i128,
}

/// One cubic curve segment, stored as the exact polynomial coefficients of
/// `x(t) = A t^3 + B t^2 + C t + D` and `y(t) = E t^3 + F t^2 + G t + H`
/// over one rational denominator per axis.
#[derive(Clone, Copy, Debug)]
pub struct Bezier {
    ax: i128,
    bx3: i128,
    cx3: i128,
    dx: i128,
    xden: i128,
    ay: i128,
    by3: i128,
    cy3: i128,
    dy: i128,
    yden: i128,
}

impl View for Bezier {
    type V = QBez;

    closed spec fn view(&self) -> QBez {
        QBez {
            xa: self.ax as int,
            xb3: self.bx3 as int,
            xc3: self.cx3 as int,
            xd: self.dx as int,
            xden: self.xden as int,
            ya: self.ay as int,
            yb3: self.by3 as int,
            yc3: self.cy3 as int,
            yd: self.dy as int,
            yden: self.yden as int,
        }
    }
}

/// One axis of `from_points`: the four numerators over the common
/// denominator, then the expansion into `(a, b3, c3, d)`.
fn expand_axis(s0: Scalar, s1: Scalar, s2: Scalar, s3: Scalar) -> (r: AxisCoeffs)
    requires
        s0.wf(),
        s1.wf(),
        s2.wf(),
        s3.wf(),
        q_small(s0@, FP_LIM as int),
        q_small(s1@, FP_LIM as int),
        q_small(s2@, FP_LIM as int),
        q_small(s3@, FP_LIM as int),
    ensures
        r.a as int == ((axis_num3(s0@, s1@, s2@, s3@) - 3 * axis_num2(s0@, s1@, s2@, s3@)) + 3
            * axis_num1(s0@, s1@, s2@, s3@)) - axis_num0(s0@, s1@, s2@, s3@),
        r.b3 as int == (axis_num2(s0@, s1@, s2@, s3@) - 2 * axis_num1(s0@, s1@, s2@, s3@))
            + axis_num0(s0@, s1@, s2@, s3@),
        r.c3 as int == axis_num1(s0@, s1@, s2@, s3@) - axis_num0(s0@, s1@, s2@, s3@),
        r.d as int == axis_num0(s0@, s1@, s2@, s3@),
        r.den as int == axis_den(s0@, s1@, s2@, s3@),
        1 <= r.den,
        axis_same_den(s0@, s1@, s2@, s3@) ==> r.den <= FP_LIM && -COEFF_LIM <= r.a <= COEFF_LIM
            && -COEFF_LIM <= r.b3 <= COEFF_LIM && -COEFF_LIM <= r.c3 <= COEFF_LIM && -COEFF_LIM
            <= r.d <= COEFF_LIM,
        q_small(s0@, PT_LIM as int) && q_small(s1@, PT_LIM as int) && q_small(s2@, PT_LIM as int)
            && q_small(s3@, PT_LIM as int) ==> r.den <= COEFF_LIM && -COEFF_LIM <= r.a <= COEFF_LIM
            && -COEFF_LIM <= r.b3 <= COEFF_LIM && -COEFF_LIM <= r.c3 <= COEFF_LIM && -COEFF_LIM
            <= r.d <= COEFF_LIM,
{
    if s0.d == s1.d && s1.d == s2.d && s2.d == s3.d {
        let a: i128 = ((s3.n - 3 * s2.n) + 3 * s1.n) - s0.n;
        let b3: i128 = (s2.n - 2 * s1.n) + s0.n;
        let c3: i128 = s1.n - s0.n;
        AxisCoeffs { a, b3, c3, d: s0.n, den: s0.d }
    } else {
        proof {
            lemma_mul_bound(s1.d as int, s2.d as int, FP_LIM as int, FP_LIM as int);
            lemma_mul_bound(
                s1.d as int * s2.d as int,
                s3.d as int,
                FP_LIM as int * FP_LIM as int,
                FP_LIM as int,
            );
            lemma_mul_bound(s0.d as int, s2.d as int, FP_LIM as int, FP_LIM as int);
            lemma_mul_bound(
                s0.d as int * s2.d as int,
                s3.d as int,
                FP_LIM as int * FP_LIM as int,
                FP_LIM as int,
            );
            lemma_mul_bound(s0.d as int, s1.d as int, FP_LIM as int, FP_LIM as int);
            lemma_mul_bound(
                s0.d as int * s1.d as int,
                s3.d as int,
                FP_LIM as int * FP_LIM as int,
                FP_LIM as int,
            );
            lemma_mul_bound(
                s0.d as int * s1.d as int,
                s2.d as int,
                FP_LIM as int * FP_LIM as int,
                FP_LIM as int,
            );
            lemma_mul_bound(
                (s0.d as int * s1.d as int) * s2.d as int,
                s3.d as int,
                (FP_LIM as int * FP_LIM as int) * FP_LIM as int,
                FP_LIM as int,
            );
            lemma_mul_pos(s0.d as int, s1.d as int);
            lemma_mul_pos(s0.d as int * s1.d as int, s2.d as int);
            lemma_mul_pos((s0.d as int * s1.d as int) * s2.d as int, s3.d as int);
            lemma_mul_pos(s1.d as int, s2.d as int);
            lemma_mul_pos(s1.d as int * s2.d as int, s3.d as int);
            lemma_mul_pos(s0.d as int, s2.d as int);
            lemma_mul_pos(s0.d as int * s2.d as int, s3.d as int);
            lemma_mul_pos(s0.d as int * s1.d as int, s3.d as int);
        }
        let m0: i128 = (s1.d * s2.d) * s3.d;
        let m1: i128 = (s0.d * s2.d) * s3.d;
        let m2: i128 = (s0.d * s1.d) * s3.d;
        let m3: i128 = (s0.d * s1.d) * s2.d;
        let dd: i128 = ((s0.d * s1.d) * s2.d) * s3.d;
        proof {
            let lim3: int = (FP_LIM as int * FP_LIM as int) * FP_LIM as int;
            lemma_mul_bound(s0.n as int, m0 as int, FP_LIM as int, lim3);
            lemma_mul_bound(s1.n as int, m1 as int, FP_LIM as int, lim3);
            lemma_mul_bound(s2.n as int, m2 as int, FP_LIM as int, lim3);
            lemma_mul_bound(s3.n as int, m3 as int, FP_LIM as int, lim3);
            if q_small(s0@, PT_LIM as int) && q_small(s1@, PT_LIM as int) && q_small(
                s2@,
                PT_LIM as int,
            ) && q_small(s3@, PT_LIM as int) {
                let plim3: int = (PT_LIM as int * PT_LIM as int) * PT_LIM as int;
                lemma_mul_bound(s1.d as int, s2.d as int, PT_LIM as int, PT_LIM as int);
                lemma_mul_bound(
                    s1.d as int * s2.d as int,
                    s3.d as int,
                    PT_LIM as int * PT_LIM as int,
                    PT_LIM as int,
                );
                lemma_mul_bound(s0.d as int, s2.d as int, PT_LIM as int, PT_LIM as int);
                lemma_mul_bound(
                    s0.d as int * s2.d as int,
                    s3.d as int,
                    PT_LIM as int * PT_LIM as int,
                    PT_LIM as int,
                );
                lemma_mul_bound(s0.d as int, s1.d as int, PT_LIM as int, PT_LIM as int);
                lemma_mul_bound(
                    s0.d as int * s1.d as int,
                    s3.d as int,
                    PT_LIM as int * PT_LIM as int,
                    PT_LIM as int,
                );
                lemma_mul_bound(
                    s0.d as int * s1.d as int,
                    s2.d as int,
                    PT_LIM as int * PT_LIM as int,
                    PT_LIM as int,
                );
                lemma_mul_bound(
                    (s0.d as int * s1.d as int) * s2.d as int,
                    s3.d as int,
                    plim3,
                    PT_LIM as int,
                );
                lemma_mul_bound(s0.n as int, m0 as int, PT_LIM as int, plim3);
                lemma_mul_bound(s1.n as int, m1 as int, PT_LIM as int, plim3);
                lemma_mul_bound(s2.n as int, m2 as int, PT_LIM as int, plim3);
                lemma_mul_bound(s3.n as int, m3 as int, PT_LIM as int, plim3);
            }
        }
        let n0: i128 = s0.n * m0;
        let n1: i128 = s1.n * m1;
        let n2: i128 = s2.n * m2;
        let n3: i128 = s3.n * m3;
        let a: i128 = ((n3 - 3 * n2) + 3 * n1) - n0;
        let b3: i128 = (n2 - 2 * n1) + n0;
        let c3: i128 = n1 - n0;
        AxisCoeffs { a, b3, c3, d: n0, den: dd }
    }
}

impl Bezier {
    /// The representation is within the bounds under which every operation
    /// of this type stays exact.
    pub open spec fn fits(&self) -> bool {
        qbez_fits(self@, COEFF_LIM as int)
    }

    /// The curve through the four control points: stores the unique
    /// algebraic expansion of the cubic Bernstein form into polynomial
    /// coefficients.
    pub fn from_points(p0: Vector, p1: Vector, p2: Vector, p3: Vector) -> (r: Bezier)
        requires
            p0.wf(),
            p1.wf(),
            p2.wf(),
            p3.wf(),
            qv_small(p0@, FP_LIM as int),
            qv_small(p1@, FP_LIM as int),
            qv_small(p2@, FP_LIM as int),
            qv_small(p3@, FP_LIM as int),
        ensures
            r@ == from_points_spec(p0@, p1@, p2@, p3@),
            qbez_wf(r@),
            axis_same_den(p0@.x, p1@.x, p2@.x, p3@.x) && axis_same_den(p0@.y, p1@.y, p2@.y, p3@.y)
                ==> r.fits(),
            qv_small(p0@, PT_LIM as int) && qv_small(p1@, PT_LIM as int) && qv_small(
                p2@,
                PT_LIM as int,
            ) && qv_small(p3@, PT_LIM as int) ==> r.fits(),
    {
        let cx = expand_axis(p0.x, p1.x, p2.x, p3.x);
        let cy = expand_axis(p0.y, p1.y, p2.y, p3.y);
        Bezier {
            ax: cx.a,
            bx3: cx.b3,
            cx3: cx.c3,
            dx: cx.d,
            xden: cx.den,
            ay: cy.a,
            by3: cy.b3,
            cy3: cy.c3,
            dy: cy.d,
            yden: cy.den,
        }
    }

    /// The four control points recovered from the coefficients by the exact
    /// inverse of the expansion done in `from_points`.
    pub fn to_control_points(&self) -> (r: [Vector; 4])
        requires
            self.fits(),
        ensures
            (r@[0])@ == bez_cp0(self@),
            (r@[1])@ == bez_cp1(self@),
            (r@[2])@ == bez_cp2(self@),
            (r@[3])@ == bez_cp3(self@),
    {
        let p0 = Vector {
            x: Scalar { n: self.dx, d: self.xden },
            y: Scalar { n: self.dy, d: self.yden },
        };
        let p1 = Vector {
            x: Scalar { n: self.dx + self.cx3, d: self.xden },
            y: Scalar { n: self.dy + self.cy3, d: self.yden },
        };
        let p2 = Vector {
            x: Scalar { n: (self.dx + 2 * self.cx3) + self.bx3, d: self.xden },
            y: Scalar { n: (self.dy + 2 * self.cy3) + self.by3, d: self.yden },
        };
        let p3 = Vector {
            x: Scalar { n: ((self.dx + 3 * self.cx3) + 3 * self.bx3) + self.ax, d: self.xden },
            y: Scalar { n: ((self.dy + 3 * self.cy3) + 3 * self.by3) + self.ay, d: self.yden },
        };
        [p0, p1, p2, p3]
    }

    /// The four control points as a growable sequence, first to last.
    pub fn to_control_points_vec(&self) -> (r: Vec<Vector>)
        requires
            self.fits(),
        ensures
            r@.len() == 4,
            (r@[0])@ == bez_cp0(self@),
            (r@[1])@ == bez_cp1(self@),
            (r@[2])@ == bez_cp2(self@),
            (r@[3])@ == bez_cp3(self@),
    {
        let cps = self.to_control_points();
        let mut out: Vec<Vector> = Vec::new();
        out.push(cps[0]);
        out.push(cps[1]);
        out.push(cps[2]);
        out.push(cps[3]);
        out
    }

    /// Splits the cubic at `tn / td` into two cubics by exact
    /// reparameterization: the left half traces `[0, t]`, the right half
    /// `[t, 1]`, and they share the point at `t`. Parameters outside `[0, 1]`
    /// extrapolate and are permitted.
    pub fn subdivide(&self, tn: i128, td: i128) -> (r: (Bezier, Bezier))
        requires
            self.fits(),
            -T_LIM <= tn <= T_LIM,
            1 <= td <= T_LIM,
        ensures
            (r.0)@ == subdiv_left(self@, tn as int, td as int),
            (r.1)@ == subdiv_right(self@, tn as int, td as int),
            qbez_wf((r.0)@),
            qbez_wf((r.1)@),
    {
        proof {
            lemma_mul_bound(tn as int, tn as int, T_LIM as int, T_LIM as int);
            lemma_mul_bound(td as int, td as int, T_LIM as int, T_LIM as int);
            lemma_mul_pos(td as int, td as int);
        }
        let t2: i128 = tn * tn;
        let s2: i128 = td * td;
        let m: i128 = td - tn;
        proof {
            let l1: int = T_LIM as int;
            let l2: int = l1 * l1;
            let l3: int = l2 * l1;
            let cl: int = COEFF_LIM as int;
            lemma_mul_bound(t2 as int, tn as int, l2, l1);
            lemma_mul_bound(s2 as int, td as int, l2, l1);
            lemma_mul_bound(m as int, m as int, 2 * l1, 2 * l1);
            lemma_mul_pos(s2 as int, td as int);
        }
        let t3: i128 = t2 * tn;
        let s3: i128 = s2 * td;
        let m2: i128 = m * m;
        proof {
            let l1: int = T_LIM as int;
            let l2: int = l1 * l1;
            let l3: int = l2 * l1;
            let cl: int = COEFF_LIM as int;
            lemma_mul_bound(m2 as int, m as int, 4 * l2, 2 * l1);
            lemma_mul_bound(t2 as int, td as int, l2, l1);
            lemma_mul_bound(tn as int, s2 as int, l1, l2);
            lemma_mul_bound(tn as int, td as int, l1, l1);
        }
        let m3: i128 = m2 * m;
        let tt: i128 = t2 * td;
        let ts: i128 = tn * s2;
        let td1: i128 = tn * td;
        proof {
            let l1: int = T_LIM as int;
            let l2: int = l1 * l1;
            let l3: int = l2 * l1;
            let cl: int = COEFF_LIM as int;
            lemma_mul_bound(self.ax as int, t3 as int, cl, l3);
            lemma_mul_bound(self.bx3 as int, tt as int, cl, l3);
            lemma_mul_bound(self.cx3 as int, ts as int, cl, l3);
            lemma_mul_bound(self.dx as int, s3 as int, cl, l3);
            lemma_mul_bound(self.xden as int, s3 as int, cl, l3);
            lemma_mul_bound(self.ay as int, t3 as int, cl, l3);
            lemma_mul_bound(self.by3 as int, tt as int, cl, l3);
            lemma_mul_bound(self.cy3 as int, ts as int, cl, l3);
            lemma_mul_bound(self.dy as int, s3 as int, cl, l3);
            lemma_mul_bound(self.yden as int, s3 as int, cl, l3);
            lemma_mul_pos(self.xden as int, s3 as int);
            lemma_mul_pos(self.yden as int, s3 as int);
            lemma_mul_bound(3 * self.bx3 as int, tt as int, 3 * cl, l3);
            lemma_mul_bound(3 * self.cx3 as int, ts as int, 3 * cl, l3);
            lemma_mul_bound(3 * self.by3 as int, tt as int, 3 * cl, l3);
            lemma_mul_bound(3 * self.cy3 as int, ts as int, 3 * cl, l3);
            lemma_mul_bound(self.ax as int, m3 as int, cl, 8 * l3);
            lemma_mul_bound(self.ay as int, m3 as int, cl, 8 * l3);
            lemma_mul_bound(self.ax as int, tn as int, cl, l1);
            lemma_mul_bound(self.bx3 as int, td as int, cl, l1);
            lemma_mul_bound(self.ay as int, tn as int, cl, l1);
            lemma_mul_bound(self.by3 as int, td as int, cl, l1);
            lemma_mul_bound(
                self.ax as int * tn as int + self.bx3 as int * td as int,
                m2 as int,
                2 * (cl * l1),
                4 * l2,
            );
            lemma_mul_bound(
                self.ay as int * tn as int + self.by3 as int * td as int,
                m2 as int,
                2 * (cl * l1),
                4 * l2,
            );
            lemma_mul_bound(self.ax as int, t2 as int, cl, l2);
            lemma_mul_bound(self.bx3 as int, td1 as int, cl, l2);
            lemma_mul_bound(self.cx3 as int, s2 as int, cl, l2);
            lemma_mul_bound(self.ay as int, t2 as int, cl, l2);
            lemma_mul_bound(self.by3 as int, td1 as int, cl, l2);
            lemma_mul_bound(self.cy3 as int, s2 as int, cl, l2);
            lemma_mul_bound(
                (self.ax as int * t2 as int + 2 * (self.bx3 as int * td1 as int)) + self.cx3 as int
                    * s2 as int,
                m as int,
                4 * (cl * l2),
                2 * l1,
            );
            lemma_mul_bound(
                (self.ay as int * t2 as int + 2 * (self.by3 as int * td1 as int)) + self.cy3 as int
                    * s2 as int,
                m as int,
                4 * (cl * l2),
                2 * l1,
            );
        }
        let left = Bezier {
            ax: self.ax * t3,
            bx3: self.bx3 * tt,
            cx3: self.cx3 * ts,
            dx: self.dx * s3,
            xden: self.xden * s3,
            ay: self.ay * t3,
            by3: self.by3 * tt,
            cy3: self.cy3 * ts,
            dy: self.dy * s3,
            yden: self.yden * s3,
        };
        let xq: i128 = self.ax * t3 + (3 * self.bx3) * tt + (3 * self.cx3) * ts + self.dx * s3;
        let yq: i128 = self.ay * t3 + (3 * self.by3) * tt + (3 * self.cy3) * ts + self.dy * s3;
        let right = Bezier {
            ax: self.ax * m3,
            bx3: (self.ax * tn + self.bx3 * td) * m2,
            cx3: ((self.ax * t2 + 2 * (self.bx3 * td1)) + self.cx3 * s2) * m,
            dx: xq,
            xden: self.xden * s3,
            ay: self.ay * m3,
            by3: (self.ay * tn + self.by3 * td) * m2,
            cy3: ((self.ay * t2 + 2 * (self.by3 * td1)) + self.cy3 * s2) * m,
            dy: yq,
            yden: self.yden * s3,
        };
        (left, right)
    }
}

impl Evaluate for Bezier {
    open spec fn arith_ok(&self) -> bool {
        qbez_fits(self@, COEFF_LIM as int)
    }

    open spec fn eval_defined(&self, tn: int, td: int) -> bool {
        true
    }

    open spec fn eval_of(&self, tn: int, td: int) -> QVec {
        bez_eval(self@, tn, td)
    }

    open spec fn deriv_of(&self, tn: int, td: int) -> QVec {
        bez_deriv(self@, tn, td)
    }

    open spec fn bounds_defined(&self) -> bool {
        true
    }

    open spec fn bounds_of(&self) -> QRect {
        bez_box(self@)
    }

    fn evaluate(&self, tn: i128, td: i128) -> (r: Result<Vector, CurveError>) {
        proof {
            lemma_mul_bound(tn as int, tn as int, T_LIM as int, T_LIM as int);
            lemma_mul_bound(td as int, td as int, T_LIM as int, T_LIM as int);
            lemma_mul_pos(td as int, td as int);
        }
        let t2: i128 = tn * tn;
        let s2: i128 = td * td;
        proof {
            let l1: int = T_LIM as int;
            let l2: int = l1 * l1;
            lemma_mul_bound(t2 as int, tn as int, l2, l1);
            lemma_mul_bound(s2 as int, td as int, l2, l1);
            lemma_mul_bound(t2 as int, td as int, l2, l1);
            lemma_mul_bound(tn as int, s2 as int, l1, l2);
            lemma_mul_pos(s2 as int, td as int);
        }
        let t3: i128 = t2 * tn;
        let s3: i128 = s2 * td;
        let tt: i128 = t2 * td;
        let ts: i128 = tn * s2;
        proof {
            let l3: int = (T_LIM as int * T_LIM as int) * T_LIM as int;
            let cl: int = COEFF_LIM as int;
            lemma_mul_bound(self.ax as int, t3 as int, cl, l3);
            lemma_mul_bound(3 * self.bx3 as int, tt as int, 3 * cl, l3);
            lemma_mul_bound(3 * self.cx3 as int, ts as int, 3 * cl, l3);
            lemma_mul_bound(self.dx as int, s3 as int, cl, l3);
            lemma_mul_bound(self.ay as int, t3 as int, cl, l3);
            lemma_mul_bound(3 * self.by3 as int, tt as int, 3 * cl, l3);
            lemma_mul_bound(3 * self.cy3 as int, ts as int, 3 * cl, l3);
            lemma_mul_bound(self.dy as int, s3 as int, cl, l3);
            lemma_mul_bound(self.xden as int, s3 as int, cl, l3);
            lemma_mul_bound(self.yden as int, s3 as int, cl, l3);
            lemma_mul_pos(self.xden as int, s3 as int);
            lemma_mul_pos(self.yden as int, s3 as int);
        }
        let xn: i128 = self.ax * t3 + (3 * self.bx3) * tt + (3 * self.cx3) * ts + self.dx * s3;
        let yn: i128 = self.ay * t3 + (3 * self.by3) * tt + (3 * self.cy3) * ts + self.dy * s3;
        Ok(
            Vector {
                x: Scalar { n: xn, d: self.xden * s3 },
                y: Scalar { n: yn, d: self.yden * s3 },
            },
        )
    }

    fn derivative(&self, tn: i128, td: i128) -> (r: Result<Vector, CurveError>) {
        proof {
            lemma_mul_bound(tn as int, tn as int, T_LIM as int, T_LIM as int);
            lemma_mul_bound(td as int, td as int, T_LIM as int, T_LIM as int);
            lemma_mul_pos(td as int, td as int);
            lemma_mul_bound(tn as int, td as int, T_LIM as int, T_LIM as int);
        }
        let t2: i128 = tn * tn;
        let s2: i128 = td * td;
        let td1: i128 = tn * td;
        proof {
            let l2: int = T_LIM as int * T_LIM as int;
            let cl: int = COEFF_LIM as int;
            lemma_mul_bound(self.ax as int, t2 as int, cl, l2);
            lemma_mul_bound(self.bx3 as int, td1 as int, cl, l2);
            lemma_mul_bound(self.cx3 as int, s2 as int, cl, l2);
            lemma_mul_bound(self.ay as int, t2 as int, cl, l2);
            lemma_mul_bound(self.by3 as int, td1 as int, cl, l2);
            lemma_mul_bound(self.cy3 as int, s2 as int, cl, l2);
            lemma_mul_bound(self.xden as int, s2 as int, cl, l2);
            lemma_mul_bound(self.yden as int, s2 as int, cl, l2);
            lemma_mul_pos(self.xden as int, s2 as int);
            lemma_mul_pos(self.yden as int, s2 as int);
        }
        let xn: i128 = 3 * ((self.ax * t2 + 2 * (self.bx3 * td1)) + self.cx3 * s2);
        let yn: i128 = 3 * ((self.ay * t2 + 2 * (self.by3 * td1)) + self.cy3 * s2);
        Ok(
            Vector {
                x: Scalar { n: xn, d: self.xden * s2 },
                y: Scalar { n: yn, d: self.yden * s2 },
            },
        )
    }

    fn bounds(&self) -> (r: Result<Rect, CurveError>) {
        let x0: i128 = self.dx;
        let x1: i128 = self.dx + self.cx3;
        let x2: i128 = (self.dx + 2 * self.cx3) + self.bx3;
        let x3: i128 = ((self.dx + 3 * self.cx3) + 3 * self.bx3) + self.ax;
        let y0: i128 = self.dy;
        let y1: i128 = self.dy + self.cy3;
        let y2: i128 = (self.dy + 2 * self.cy3) + self.by3;
        let y3: i128 = ((self.dy + 3 * self.cy3) + 3 * self.by3) + self.ay;
        Ok(
            Rect {
                left: Scalar { n: imin_i(imin_i(x0, x1), imin_i(x2, x3)), d: self.xden },
                bottom: Scalar { n: imin_i(imin_i(y0, y1), imin_i(y2, y3)), d: self.yden },
                right: Scalar { n: imax_i(imax_i(x0, x1), imax_i(x2, x3)), d: self.xden },
                top: Scalar { n: imax_i(imax_i(y0, y1), imax_i(y2, y3)), d: self.yden },
            },
        )
    }
}

/// The smaller of two machine integers.
fn imin_i(a: i128, b: i128) -> (r: i128)
    ensures
        r as int == imin(a as int, b as int),
{
    if a <= b {
        a
    } else {
        b
    }
}

/// The larger of two machine integers.
fn imax_i(a: i128, b: i128) -> (r: i128)
    ensures
        r as int == imax(a as int, b as int),
{
    if a <= b {
        b
    } else {
        a
    }
}

} // verus!
