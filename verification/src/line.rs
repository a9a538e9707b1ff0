//! Straight lines.
use crate::math::{Point, Vector};
use crate::scalar::Scalar;
use vstd::prelude::*;

verus! {

/// An infinite line through a point, along a vector.
#[derive(Copy, Clone, Debug, PartialEq)]
pub struct Line<S> {
    pub point: Point<S>,
    pub vector: Vector<S>,
}

impl<S: Scalar> Line<S> {
    /// The directions of two lines differ too little to tell where the lines meet.
    pub open spec fn nearly_parallel(self, other: Line<S>) -> bool {
        self.vector.spec_cross(other.vector).spec_abs() <= S::spec_epsilon()
    }

    /// The moment of the line about the origin: the cross product of two points on it.
    pub open spec fn moment(self) -> S {
        self.point.spec_to_vector().spec_cross((self.point + self.vector).spec_to_vector())
    }

    /// Where two lines meet, by Cramer's rule on their moments.
    pub open spec fn spec_intersection(self, other: Line<S>) -> Option<Point<S>> {
        let inv_det = S::spec_one() / self.vector.spec_cross(other.vector);
        let (a, b) = (self.moment(), other.moment());
        if self.nearly_parallel(other) {
            None
        } else {
            Some(
                Point {
                    x: (b * self.vector.x - a * other.vector.x) * inv_det,
                    y: (b * self.vector.y - a * other.vector.y) * inv_det,
                },
            )
        }
    }

    /// Where two lines meet, or `None` if they are parallel or nearly so.
    pub fn intersection(&self, other: &Line<S>) -> (r: Option<Point<S>>)
        ensures
            r is None <==> self.nearly_parallel(*other),
            r == self.spec_intersection(*other),
    {
        let det = self.vector.cross(other.vector);
        if det.abs().le(S::epsilon()) {
            return None;
        }
        let inv_det = S::one().div(det);
        let self_end = self.point.add(self.vector);
        let other_end = other.point.add(other.vector);
        let a = self.point.to_vector().cross(self_end.to_vector());
        let b = other.point.to_vector().cross(other_end.to_vector());
        Some(
            Point {
                x: b.mul(self.vector.x).sub(a.mul(other.vector.x)).mul(inv_det),
                y: b.mul(self.vector.y).sub(a.mul(other.vector.y)).mul(inv_det),
            },
        )
    }
}

} // verus!
