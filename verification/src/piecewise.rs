use vstd::prelude::*;
use vstd::arithmetic::div_mod::{
    lemma_div_nonincreasing, lemma_div_pos_is_pos, lemma_fundamental_div_mod, lemma_mod_bound,
};
use crate::bezier::{
    bez_cp0, bez_cp1, bez_cp2, bez_cp3, from_points_spec, qbez_wf, subdiv_left, subdiv_right,
    vec_of, Bezier, QBez, PT_LIM,
};
use crate::error::CurveError;
use crate::evaluate::{Evaluate, T_LIM};
use crate::rect::{q_rect_small, q_rect_union, QRect, Rect};
use crate::vector::{
    lemma_mul_bound, lemma_mul_mono, lemma_mul_nonneg, qv_small, QVec, Vector, CMP_LIM,
};

verus! {

/// An ordered, non-empty sequence of curve segments treated as one curve
/// over the parameter domain `[0, 1]`: the domain splits into as many
/// equal-width sub-intervals as there are segments, in order. An empty
/// sequence is an invalid state; operations on it fail with
/// `CurveError::EmptySequence`.
pub struct Piecewise<T: Evaluate> {
    pub curves: Vec<T>,
}

/// The segment index addressed by the parameter `tn / td` among `n` equal
/// sub-intervals: `floor(n * t)`, clamped to the last index so that the
/// last interval is closed at its right end.
pub open spec fn pw_index(n: int, tn: int, td: int) -> int {
    let m = (n * tn) / td;
    if m <= n - 1 {
        m
    } else {
        n - 1
    }
}

/// The numerator of the parameter local to that segment, over the same
/// denominator `td`: `n * t - index`.
pub open spec fn pw_local(n: int, tn: int, td: int) -> int {
    n * tn - pw_index(n, tn, td) * td
}

/// The union of the bounding boxes of all segments, first to last.
pub open spec fn pw_bounds<T: Evaluate>(s: Seq<T>) -> QRect
    decreases s.len(),
{
    if s.len() <= 1 {
        s[0].bounds_of()
    } else {
        q_rect_union(pw_bounds(s.drop_last()), s.last().bounds_of())
    }
}

/// The index and local parameter of the segment addressed by `tn / td`.
struct SegIndex {
    idx: usize,
    local: i128,
}

/// Picks the segment a global parameter lands in and remaps the parameter
/// onto it.
fn seg_index(n: usize, tn: i128, td: i128) -> (r: SegIndex)
    requires
        1 <= n <= T_LIM,
        0 <= tn <= td,
        1 <= td <= T_LIM,
    ensures
        r.idx < n,
        r.idx as int == pw_index(n as int, tn as int, td as int),
        r.local as int == pw_local(n as int, tn as int, td as int),
        0 <= r.local <= td,
{
    proof {
        lemma_mul_bound(n as int, tn as int, T_LIM as int, T_LIM as int);
        lemma_mul_nonneg(n as int, tn as int);
    }
    let ni: i128 = n as i128;
    let prod: i128 = ni * tn;
    let pu: u128 = prod as u128;
    let tdu: u128 = td as u128;
    proof {
        lemma_div_nonincreasing(pu as int, tdu as int);
        lemma_div_pos_is_pos(pu as int, tdu as int);
    }
    let mu: u128 = pu / tdu;
    let m: i128 = mu as i128;
    let idx: i128 = if m <= ni - 1 {
        m
    } else {
        ni - 1
    };
    proof {
        lemma_mul_bound(idx as int, td as int, T_LIM as int * T_LIM as int, T_LIM as int);
        lemma_fundamental_div_mod(prod as int, td as int);
        lemma_mod_bound(prod as int, td as int);
        let x: int = prod as int;
        let d: int = td as int;
        let q: int = x / d;
        assert(d * q == q * d) by (nonlinear_arith);
        if q > n - 1 {
            lemma_mul_mono(n as int, q, d);
            lemma_mul_mono(tn as int, td as int, n as int);
            assert((n - 1) * d == n as int * d - d) by (nonlinear_arith);
            assert(n as int * tn as int <= n as int * td as int);
        }
    }
    let local: i128 = prod - idx * td;
    SegIndex { idx: idx as usize, local }
}

impl<T: Evaluate> Evaluate for Piecewise<T> {
    /// Within bounds when there are at most `T_LIM` segments and every
    /// segment is.
    open spec fn arith_ok(&self) -> bool {
        self.curves@.len() <= T_LIM as int && forall|i: int|
            0 <= i < self.curves@.len() ==> (#[trigger] self.curves@[i]).arith_ok()
    }

    /// Defined when there is at least one segment and the segment the
    /// parameter lands in is itself defined at the remapped parameter.
    open spec fn eval_defined(&self, tn: int, td: int) -> bool {
        let n = self.curves@.len() as int;
        self.curves@.len() > 0 && self.curves@[pw_index(n, tn, td)].eval_defined(
            pw_local(n, tn, td),
            td,
        )
    }

    /// The segment the parameter lands in, evaluated at the remapped
    /// parameter.
    open spec fn eval_of(&self, tn: int, td: int) -> QVec {
        let n = self.curves@.len() as int;
        self.curves@[pw_index(n, tn, td)].eval_of(pw_local(n, tn, td), td)
    }

    open spec fn deriv_of(&self, tn: int, td: int) -> QVec {
        let n = self.curves@.len() as int;
        self.curves@[pw_index(n, tn, td)].deriv_of(pw_local(n, tn, td), td)
    }

    /// Defined when there is at least one segment and every segment's own
    /// bounds are defined.
    open spec fn bounds_defined(&self) -> bool {
        self.curves@.len() > 0 && forall|i: int|
            0 <= i < self.curves@.len() ==> (#[trigger] self.curves@[i]).bounds_defined()
    }

    open spec fn bounds_of(&self) -> QRect {
        pw_bounds(self.curves@)
    }

    fn evaluate(&self, tn: i128, td: i128) -> (r: Result<Vector, CurveError>) {
        let n: usize = self.curves.len();
        if n == 0 {
            return Err(CurveError::EmptySequence);
        }
        let s = seg_index(n, tn, td);
        self.curves[s.idx].evaluate(s.local, td)
    }

    fn derivative(&self, tn: i128, td: i128) -> (r: Result<Vector, CurveError>) {
        let n: usize = self.curves.len();
        if n == 0 {
            return Err(CurveError::EmptySequence);
        }
        let s = seg_index(n, tn, td);
        self.curves[s.idx].derivative(s.local, td)
    }

    fn bounds(&self) -> (r: Result<Rect, CurveError>) {
        let n: usize = self.curves.len();
        if n == 0 {
            return Err(CurveError::EmptySequence);
        }
        let mut acc: Rect;
        match self.curves[0].bounds() {
            Ok(b0) => {
                acc = b0;
            },
            Err(e) => {
                return Err(e);
            },
        }
        let mut i: usize = 1;
        while i < n
            invariant
                1 <= i <= n,
                n == self.curves@.len(),
                self.arith_ok(),
                forall|j: int| 0 <= j < i ==> (#[trigger] self.curves@[j]).bounds_defined(),
                acc@ == pw_bounds(self.curves@.take(i as int)),
                acc.wf(),
                q_rect_small(acc@, CMP_LIM as int),
            decreases n - i,
        {
            match self.curves[i].bounds() {
                Ok(bi) => {
                    let joined = acc.encapsulate_rect(&bi);
                    proof {
                        let pre = self.curves@.take(i as int);
                        let post = self.curves@.take(i as int + 1);
                        assert(post.drop_last() =~= pre);
                        assert(post.last() == self.curves@[i as int]);
                    }
                    acc = joined;
                },
                Err(e) => {
                    return Err(e);
                },
            }
            i += 1;
        }
        proof {
            assert(self.curves@.take(n as int) =~= self.curves@);
        }
        Ok(acc)
    }
}

/// Every segment of a contour-level piecewise is within the bounds under
/// which curve arithmetic stays exact.
pub open spec fn pwb_fits(p: Piecewise<Bezier>) -> bool {
    forall|i: int| 0 <= i < p.curves@.len() ==> (#[trigger] p.curves@[i]).fits()
}

/// `b` is `a` with every segment subdivided at `tn / td` and both halves
/// kept in order.
pub open spec fn pw_subdivided(a: Piecewise<Bezier>, b: Piecewise<Bezier>, tn: int, td: int) -> bool {
    &&& b.curves@.len() == 2 * a.curves@.len()
    &&& forall|j: int|
        0 <= j < a.curves@.len() ==> (#[trigger] b.curves@[2 * j])@ == subdiv_left(
            a.curves@[j]@,
            tn,
            td,
        ) && (b.curves@[2 * j + 1])@ == subdiv_right(a.curves@[j]@, tn, td)
}

/// `r` holds, for every control point of `v`, an image under `f`, and is
/// the curve built from those four images.
pub open spec fn bez_transformed<F: Fn(Vector) -> Vector>(f: F, v: QBez, r: QBez) -> bool {
    exists|m0: Vector, m1: Vector, m2: Vector, m3: Vector|
        call_ensures(f, (vec_of(bez_cp0(v)),), m0) && call_ensures(f, (vec_of(bez_cp1(v)),), m1)
            && call_ensures(f, (vec_of(bez_cp2(v)),), m2) && call_ensures(
            f,
            (vec_of(bez_cp3(v)),),
            m3,
        ) && r == from_points_spec(m0@, m1@, m2@, m3@)
}

/// `b` is `a` with every segment rebuilt from the images of its control
/// points under `f`.
pub open spec fn pwb_transformed<F: Fn(Vector) -> Vector>(
    f: F,
    a: Piecewise<Bezier>,
    b: Piecewise<Bezier>,
) -> bool {
    b.curves@.len() == a.curves@.len() && forall|i: int|
        0 <= i < a.curves@.len() ==> bez_transformed(f, (#[trigger] a.curves@[i])@, b.curves@[i]@)
}

impl Piecewise<Bezier> {
    /// Subdivides every segment at `tn / td` and keeps both halves in the
    /// original order, doubling the segment count without changing the
    /// curve's image.
    pub fn subdivide(&self, tn: i128, td: i128) -> (r: Piecewise<Bezier>)
        requires
            pwb_fits(*self),
            -T_LIM <= tn <= T_LIM,
            1 <= td <= T_LIM,
        ensures
            pw_subdivided(*self, r, tn as int, td as int),
            forall|j: int| 0 <= j < r.curves@.len() ==> qbez_wf((#[trigger] r.curves@[j])@),
    {
        let n: usize = self.curves.len();
        let mut out: Vec<Bezier> = Vec::new();
        let mut i: usize = 0;
        while i < n
            invariant
                i <= n,
                n == self.curves@.len(),
                pwb_fits(*self),
                -T_LIM <= tn <= T_LIM,
                1 <= td <= T_LIM,
                out@.len() == 2 * i,
                forall|j: int|
                    0 <= j < i ==> (#[trigger] out@[2 * j])@ == subdiv_left(
                        self.curves@[j]@,
                        tn as int,
                        td as int,
                    ) && (out@[2 * j + 1])@ == subdiv_right(self.curves@[j]@, tn as int, td as int),
                forall|j: int| 0 <= j < out@.len() ==> qbez_wf((#[trigger] out@[j])@),
            decreases n - i,
        {
            let halves = self.curves[i].subdivide(tn, td);
            let ghost prev = out@;
            out.push(halves.0);
            out.push(halves.1);
            proof {
                assert(out@.len() == 2 * (i as int) + 2);
                assert(out@[2 * (i as int)] == halves.0);
                assert(out@[2 * (i as int) + 1] == halves.1);
                assert forall|j: int| 0 <= j < i implies (#[trigger] out@[2 * j])@ == subdiv_left(
                    self.curves@[j]@,
                    tn as int,
                    td as int,
                ) && (out@[2 * j + 1])@ == subdiv_right(
                    self.curves@[j]@,
                    tn as int,
                    td as int,
                ) by {
                    assert(out@[2 * j] == prev[2 * j]);
                    assert(out@[2 * j + 1] == prev[2 * j + 1]);
                }
            }
            i += 1;
        }
        Piecewise { curves: out }
    }

    /// A new piecewise whose every segment is rebuilt from the images of
    /// its control points under `f`; coefficients are recomputed from the
    /// mapped points.
    pub fn apply_transform<F: Fn(Vector) -> Vector>(&self, f: &F) -> (r: Piecewise<Bezier>)
        requires
            pwb_fits(*self),
            forall|v: Vector| #[trigger] call_requires(*f, (v,)),
            forall|v: Vector, w: Vector| #[trigger] call_ensures(*f, (v,), w) ==> w.wf()
                && qv_small(w@, PT_LIM as int),
        ensures
            pwb_transformed(*f, *self, r),
            pwb_fits(r),
    {
        let n: usize = self.curves.len();
        let mut out: Vec<Bezier> = Vec::new();
        let mut i: usize = 0;
        while i < n
            invariant
                i <= n,
                n == self.curves@.len(),
                pwb_fits(*self),
                forall|v: Vector| #[trigger] call_requires(*f, (v,)),
                forall|v: Vector, w: Vector| #[trigger] call_ensures(*f, (v,), w) ==> w.wf()
                    && qv_small(w@, PT_LIM as int),
                out@.len() == i,
                forall|j: int|
                    0 <= j < i ==> bez_transformed(*f, (#[trigger] self.curves@[j])@, out@[j]@),
                forall|j: int| 0 <= j < i ==> (#[trigger] out@[j]).fits(),
            decreases n - i,
        {
            let mapped = self.curves[i].apply_transform(f);
            out.push(mapped);
            i += 1;
        }
        Piecewise { curves: out }
    }
}

impl Bezier {
    /// A new curve whose control points are the images under `f` of this
    /// curve's control points, with coefficients recomputed from the mapped
    /// points rather than transformed directly.
    pub fn apply_transform<F: Fn(Vector) -> Vector>(&self, f: &F) -> (r: Bezier)
        requires
            self.fits(),
            forall|v: Vector| #[trigger] call_requires(*f, (v,)),
            forall|v: Vector, w: Vector| #[trigger] call_ensures(*f, (v,), w) ==> w.wf()
                && qv_small(w@, PT_LIM as int),
        ensures
            bez_transformed(*f, self@, r@),
            r.fits(),
    {
        let cps = self.to_control_points();
        let m0 = f(cps[0]);
        let m1 = f(cps[1]);
        let m2 = f(cps[2]);
        let m3 = f(cps[3]);
        proof {
            assert(cps[0] == vec_of(bez_cp0(self@)));
            assert(cps[1] == vec_of(bez_cp1(self@)));
            assert(cps[2] == vec_of(bez_cp2(self@)));
            assert(cps[3] == vec_of(bez_cp3(self@)));
        }
        Bezier::from_points(m0, m1, m2, m3)
    }
}

impl Piecewise<Piecewise<Bezier>> {
    /// Subdivides every contour at `tn / td`.
    pub fn subdivide(&self, tn: i128, td: i128) -> (r: Piecewise<Piecewise<Bezier>>)
        requires
            forall|i: int| 0 <= i < self.curves@.len() ==> pwb_fits(#[trigger] self.curves@[i]),
            -T_LIM <= tn <= T_LIM,
            1 <= td <= T_LIM,
        ensures
            r.curves@.len() == self.curves@.len(),
            forall|i: int|
                0 <= i < self.curves@.len() ==> pw_subdivided(
                    #[trigger] self.curves@[i],
                    r.curves@[i],
                    tn as int,
                    td as int,
                ),
    {
        let n: usize = self.curves.len();
        let mut out: Vec<Piecewise<Bezier>> = Vec::new();
        let mut i: usize = 0;
        while i < n
            invariant
                i <= n,
                n == self.curves@.len(),
                forall|j: int| 0 <= j < n ==> pwb_fits(#[trigger] self.curves@[j]),
                -T_LIM <= tn <= T_LIM,
                1 <= td <= T_LIM,
                out@.len() == i,
                forall|j: int|
                    0 <= j < i ==> pw_subdivided(
                        #[trigger] self.curves@[j],
                        out@[j],
                        tn as int,
                        td as int,
                    ),
            decreases n - i,
        {
            let sub = self.curves[i].subdivide(tn, td);
            out.push(sub);
            i += 1;
        }
        Piecewise { curves: out }
    }

    /// Applies `f` to every control point of every contour.
    pub fn apply_transform<F: Fn(Vector) -> Vector>(&self, f: &F) -> (r: Piecewise<
        Piecewise<Bezier>,
    >)
        requires
            forall|i: int| 0 <= i < self.curves@.len() ==> pwb_fits(#[trigger] self.curves@[i]),
            forall|v: Vector| #[trigger] call_requires(*f, (v,)),
            forall|v: Vector, w: Vector| #[trigger] call_ensures(*f, (v,), w) ==> w.wf()
                && qv_small(w@, PT_LIM as int),
        ensures
            r.curves@.len() == self.curves@.len(),
            forall|i: int|
                0 <= i < self.curves@.len() ==> pwb_transformed(
                    *f,
                    #[trigger] self.curves@[i],
                    r.curves@[i],
                ) && pwb_fits(r.curves@[i]),
    {
        let n: usize = self.curves.len();
        let mut out: Vec<Piecewise<Bezier>> = Vec::new();
        let mut i: usize = 0;
        while i < n
            invariant
                i <= n,
                n == self.curves@.len(),
                forall|j: int| 0 <= j < n ==> pwb_fits(#[trigger] self.curves@[j]),
                forall|v: Vector| #[trigger] call_requires(*f, (v,)),
                forall|v: Vector, w: Vector| #[trigger] call_ensures(*f, (v,), w) ==> w.wf()
                    && qv_small(w@, PT_LIM as int),
                out@.len() == i,
                forall|j: int|
                    0 <= j < i ==> pwb_transformed(*f, #[trigger] self.curves@[j], out@[j])
                        && pwb_fits(out@[j]),
            decreases n - i,
        {
            let mapped = self.curves[i].apply_transform(f);
            out.push(mapped);
            i += 1;
        }
        Piecewise { curves: out }
    }
}

} // verus!
