use vstd::prelude::*;

verus! {

/// Largest magnitude allowed for the two sides of a cross-multiplied
/// comparison of rationals: the product of two such values fits in `i128`.
pub const CMP_LIM: i128 = 10_000_000_000_000_000_000;

/// A rational number at the specification level: the value `n / d`.
/// Representations are not reduced; two of them denote the same value
/// exactly when `q_eq` holds.
pub ghost struct Q {
    pub n: int,
    pub d: int,
}

pub open spec fn q_wf(q: Q) -> bool {
    q.d >= 1
}

/// Value equality of rationals, by cross-multiplication.
pub open spec fn q_eq(a: Q, b: Q) -> bool {
    a.n * b.d == b.n * a.d
}

/// Value order of rationals with positive denominators.
pub open spec fn q_le(a: Q, b: Q) -> bool {
    a.n * b.d <= b.n * a.d
}

/// The smaller of two rationals, keeping the representation of the one chosen.
pub open spec fn q_min(a: Q, b: Q) -> Q {
    if q_le(a, b) {
        a
    } else {
        b
    }
}

/// The larger of two rationals, keeping the representation of the one chosen.
pub open spec fn q_max(a: Q, b: Q) -> Q {
    if q_le(a, b) {
        b
    } else {
        a
    }
}

/// Magnitude bound on a rational's representation.
pub open spec fn q_small(q: Q, lim: int) -> bool {
    -lim <= q.n <= lim && 1 <= q.d <= lim
}

pub proof fn lemma_q_eq_trans(a: Q, b: Q, c: Q) by (nonlinear_arith)
    requires
        q_wf(a),
        q_wf(b),
        q_wf(c),
        q_eq(a, b),
        q_eq(b, c),
    ensures
        q_eq(a, c),
{
}

/// Bound on the magnitude of a product, used to rule out overflow.
pub proof fn lemma_mul_bound(a: int, b: int, abound: int, bbound: int) by (nonlinear_arith)
    requires
        -abound <= a <= abound,
        -bbound <= b <= bbound,
        0 <= abound,
        0 <= bbound,
    ensures
        -(abound * bbound) <= a * b <= abound * bbound,
{
}

/// The product of two positive integers is positive.
pub proof fn lemma_mul_pos(a: int, b: int) by (nonlinear_arith)
    requires
        a >= 1,
        b >= 1,
    ensures
        a * b >= 1,
{
}

/// The product of two nonnegative integers is nonnegative.
pub proof fn lemma_mul_nonneg(a: int, b: int) by (nonlinear_arith)
    requires
        a >= 0,
        b >= 0,
    ensures
        a * b >= 0,
{
}

/// Multiplying both sides of an inequality by a nonnegative factor.
pub proof fn lemma_mul_mono(a: int, b: int, c: int) by (nonlinear_arith)
    requires
        a <= b,
        c >= 0,
    ensures
        a * c <= b * c,
        c * a <= c * b,
{
}

/// An exact scalar coordinate: the rational `n / d`.
#[derive(Clone, Copy, Debug, PartialEq, Eq, Structural)]
pub struct Scalar {
    pub n: i128,
    pub d: i128,
}

impl View for Scalar {
    type V = Q;

    open spec fn view(&self) -> Q {
        Q { n: self.n as int, d: self.d as int }
    }
}

impl Scalar {
    pub open spec fn wf(&self) -> bool {
        q_wf(self@)
    }

    /// A scalar from an integer value.
    pub fn from_int(n: i128) -> (r: Scalar)
        ensures
            r@ == (Q { n: n as int, d: 1int }),
            r.wf(),
    {
        Scalar { n, d: 1 }
    }

    /// Whether this scalar is at most `other`, as rational values.
    pub fn le(&self, other: &Scalar) -> (r: bool)
        requires
            self.wf(),
            other.wf(),
            q_small(self@, CMP_LIM as int),
            q_small(other@, CMP_LIM as int),
        ensures
            r == q_le(self@, other@),
    {
        proof {
            lemma_mul_bound(self.n as int, other.d as int, CMP_LIM as int, CMP_LIM as int);
            lemma_mul_bound(other.n as int, self.d as int, CMP_LIM as int, CMP_LIM as int);
        }
        self.n * other.d <= other.n * self.d
    }

    /// Whether this scalar and `other` denote the same rational value.
    pub fn eq_value(&self, other: &Scalar) -> (r: bool)
        requires
            self.wf(),
            other.wf(),
            q_small(self@, CMP_LIM as int),
            q_small(other@, CMP_LIM as int),
        ensures
            r == q_eq(self@, other@),
    {
        proof {
            lemma_mul_bound(self.n as int, other.d as int, CMP_LIM as int, CMP_LIM as int);
            lemma_mul_bound(other.n as int, self.d as int, CMP_LIM as int, CMP_LIM as int);
        }
        self.n * other.d == other.n * self.d
    }
}

/// A two-dimensional point or direction with exact rational coordinates.
#[derive(Clone, Copy, Debug, PartialEq, Eq, Structural)]
pub struct Vector {
    pub x: Scalar,
    pub y: Scalar,
}

/// The specification-level value of a `Vector`: a pair of rationals.
pub ghost struct QVec {
    pub x: Q,
    pub y: Q,
}

pub open spec fn qv_eq(a: QVec, b: QVec) -> bool {
    q_eq(a.x, b.x) && q_eq(a.y, b.y)
}

pub open spec fn qv_wf(a: QVec) -> bool {
    q_wf(a.x) && q_wf(a.y)
}

pub open spec fn qv_small(a: QVec, lim: int) -> bool {
    q_small(a.x, lim) && q_small(a.y, lim)
}

impl View for Vector {
    type V = QVec;

    open spec fn view(&self) -> QVec {
        QVec { x: self.x@, y: self.y@ }
    }
}

impl Vector {
    pub open spec fn wf(&self) -> bool {
        qv_wf(self@)
    }

    /// A vector from integer coordinates.
    pub fn from_ints(x: i128, y: i128) -> (r: Vector)
        ensures
            r@ == (QVec { x: Q { n: x as int, d: 1int }, y: Q { n: y as int, d: 1int } }),
            r.wf(),
    {
        Vector { x: Scalar::from_int(x), y: Scalar::from_int(y) }
    }

    /// Whether this vector and `other` denote the same point.
    pub fn eq_value(&self, other: &Vector) -> (r: bool)
        requires
            self.wf(),
            other.wf(),
            qv_small(self@, CMP_LIM as int),
            qv_small(other@, CMP_LIM as int),
        ensures
            r == qv_eq(self@, other@),
    {
        self.x.eq_value(&other.x) && self.y.eq_value(&other.y)
    }
}

} // verus!
