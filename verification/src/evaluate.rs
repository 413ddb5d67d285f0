use vstd::prelude::*;
use crate::error::CurveError;
use crate::rect::{q_rect_small, QRect, Rect};
use crate::vector::{QVec, Vector, CMP_LIM};

verus! {

/// Largest magnitude allowed for a parameter numerator or denominator.
pub const T_LIM: i128 = 1_000_000;

/// The capability shared by every curve-like value: position, tangent and
/// bounding box over the parameter domain `[0, 1]`.
///
/// A parameter is handed over as an exact rational `tn / td`. Each
/// implementation names, at the specification level, the exact value the
/// executable methods return, so composite curves can be specified in terms
/// of their parts.
pub trait Evaluate: Sized {
    /// The representation is within the magnitude bounds under which the
    /// arithmetic of the methods below stays exact.
    spec fn arith_ok(&self) -> bool;

    /// Whether evaluation at `tn / td` reaches a segment, rather than an
    /// empty sequence of curves.
    spec fn eval_defined(&self, tn: int, td: int) -> bool;

    /// The exact position at `tn / td`, when defined.
    spec fn eval_of(&self, tn: int, td: int) -> QVec;

    /// The exact tangent at `tn / td`, when defined.
    spec fn deriv_of(&self, tn: int, td: int) -> QVec;

    /// Whether the bounding box is defined: no empty sequence of curves is
    /// reached anywhere.
    spec fn bounds_defined(&self) -> bool;

    /// The exact bounding rectangle, when defined.
    spec fn bounds_of(&self) -> QRect;

    /// The position of the curve at parameter `tn / td` of `[0, 1]`.
    fn evaluate(&self, tn: i128, td: i128) -> (r: Result<Vector, CurveError>)
        requires
            self.arith_ok(),
            0 <= tn <= td,
            1 <= td <= T_LIM,
        ensures
            r is Ok <==> self.eval_defined(tn as int, td as int),
            r is Ok ==> (r->Ok_0)@ == self.eval_of(tn as int, td as int) && (r->Ok_0).wf(),
            r is Err ==> r->Err_0 == CurveError::EmptySequence,
    ;

    /// The tangent vector at parameter `tn / td` of `[0, 1]`.
    fn derivative(&self, tn: i128, td: i128) -> (r: Result<Vector, CurveError>)
        requires
            self.arith_ok(),
            0 <= tn <= td,
            1 <= td <= T_LIM,
        ensures
            r is Ok <==> self.eval_defined(tn as int, td as int),
            r is Ok ==> (r->Ok_0)@ == self.deriv_of(tn as int, td as int) && (r->Ok_0).wf(),
            r is Err ==> r->Err_0 == CurveError::EmptySequence,
    ;

    /// The axis-aligned rectangle spanned by the curve's control points.
    fn bounds(&self) -> (r: Result<Rect, CurveError>)
        requires
            self.arith_ok(),
        ensures
            r is Ok <==> self.bounds_defined(),
            r is Ok ==> (r->Ok_0)@ == self.bounds_of() && (r->Ok_0).wf() && q_rect_small(
                (r->Ok_0)@,
                CMP_LIM as int,
            ),
            r is Err ==> r->Err_0 == CurveError::EmptySequence,
    ;
}

} // verus!
