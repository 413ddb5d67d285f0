use vstd::prelude::*;
use crate::vector::{q_min, q_max, q_small, q_wf, Q, Scalar, CMP_LIM};

verus! {

/// The specification-level value of a `Rect`: four rational edges.
pub ghost struct QRect {
    pub left: Q,
    pub bottom: Q,
    pub right: Q,
    pub top: Q,
}

/// The smallest rectangle holding both arguments, edge by edge. Each edge
/// keeps the representation of whichever operand supplies it.
pub open spec fn q_rect_union(a: QRect, b: QRect) -> QRect {
    QRect {
        left: q_min(a.left, b.left),
        bottom: q_min(a.bottom, b.bottom),
        right: q_max(a.right, b.right),
        top: q_max(a.top, b.top),
    }
}

pub open spec fn q_rect_wf(a: QRect) -> bool {
    q_wf(a.left) && q_wf(a.bottom) && q_wf(a.right) && q_wf(a.top)
}

pub open spec fn q_rect_small(a: QRect, lim: int) -> bool {
    q_small(a.left, lim) && q_small(a.bottom, lim) && q_small(a.right, lim) && q_small(
        a.top,
        lim,
    )
}

/// An axis-aligned rectangle with exact rational edges.
#[derive(Clone, Copy, Debug, PartialEq, Eq, Structural)]
pub struct Rect {
    pub left: Scalar,
    pub bottom: Scalar,
    pub right: Scalar,
    pub top: Scalar,
}

impl View for Rect {
    type V = QRect;

    open spec fn view(&self) -> QRect {
        QRect { left: self.left@, bottom: self.bottom@, right: self.right@, top: self.top@ }
    }
}

impl Rect {
    pub open spec fn wf(&self) -> bool {
        q_rect_wf(self@)
    }

    /// The union of this rectangle and `other`: the smallest rectangle
    /// that holds both.
    pub fn encapsulate_rect(&self, other: &Rect) -> (r: Rect)
        requires
            self.wf(),
            other.wf(),
            q_rect_small(self@, CMP_LIM as int),
            q_rect_small(other@, CMP_LIM as int),
        ensures
            r@ == q_rect_union(self@, other@),
            r.wf(),
            q_rect_small(r@, CMP_LIM as int),
    {
        Rect {
            left: if self.left.le(&other.left) {
                self.left
            } else {
                other.left
            },
            bottom: if self.bottom.le(&other.bottom) {
                self.bottom
            } else {
                other.bottom
            },
            right: if self.right.le(&other.right) {
                other.right
            } else {
                self.right
            },
            top: if self.top.le(&other.top) {
                other.top
            } else {
                self.top
            },
        }
    }
}

} // verus!
