use vstd::prelude::*;

verus! {

/// The ways a curve operation can be handed malformed input.
#[derive(Clone, Copy, Debug, PartialEq, Eq, Structural)]
pub enum CurveError {
    /// A `Piecewise` with no segments was evaluated, differentiated or bounded.
    EmptySequence,
    /// A contour with fewer than two points was converted to curves.
    MalformedContour,
    /// A drawing-path verb outside the five supported kinds was parsed.
    UnsupportedPrimitive,
}

impl CurveError {
    /// A short description of the error.
    pub fn describe(&self) -> (r: &'static str)
    {
        match self {
            CurveError::EmptySequence => "empty piecewise",
            CurveError::MalformedContour => "malformed contour",
            CurveError::UnsupportedPrimitive => "unsupported path primitive",
        }
    }
}

} // verus!
