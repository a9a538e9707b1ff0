//! Quadratic Bezier curves.
use crate::math::Point;
use vstd::prelude::*;

verus! {

/// A curve from `from` to `to` that leaves toward, and arrives from, `ctrl`.
#[derive(Copy, Clone, Debug, PartialEq)]
pub struct QuadraticBezierSegment<S> {
    pub from: Point<S>,
    pub ctrl: Point<S>,
    pub to: Point<S>,
}

} // verus!
