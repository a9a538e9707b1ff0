//! What curves have in common.
use std::ops::Range;

use crate::arc::Arc;
use crate::flattening;
use crate::math::{Point, Rect, Vector};
use crate::scalar::Scalar;
use vstd::prelude::*;

verus! {

/// A curve that can be sampled and split at parameters between 0 and 1.
pub trait Segment: Copy {
    /// The number type of the coordinates.
    type Scalar: Scalar;

    spec fn point_at_start(&self) -> Point<Self::Scalar>;

    spec fn point_at_end(&self) -> Point<Self::Scalar>;

    spec fn point_at_parameter(&self, t: Self::Scalar) -> Point<Self::Scalar>;

    spec fn derivative_at(&self, t: Self::Scalar) -> Vector<Self::Scalar>;

    spec fn part(&self, start: Self::Scalar, end: Self::Scalar) -> Self;

    spec fn part_before(&self, t: Self::Scalar) -> Self;

    spec fn part_after(&self, t: Self::Scalar) -> Self;

    spec fn reversed(&self) -> Self;

    /// The length can be approximated with this tolerance.
    spec fn has_length(&self, tolerance: Self::Scalar) -> bool;

    spec fn length_within(&self, tolerance: Self::Scalar) -> Self::Scalar;

    /// Start of the curve.
    fn from(&self) -> (r: Point<Self::Scalar>)
        ensures
            r == self.point_at_start(),
    ;

    /// End of the curve.
    fn to(&self) -> (r: Point<Self::Scalar>)
        ensures
            r == self.point_at_end(),
    ;

    /// The point at t (expecting t between 0 and 1).
    fn sample(&self, t: Self::Scalar) -> (r: Point<Self::Scalar>)
        ensures
            r == self.point_at_parameter(t),
    ;

    /// The x coordinate at t (expecting t between 0 and 1).
    fn x(&self, t: Self::Scalar) -> (r: Self::Scalar)
        ensures
            r == self.point_at_parameter(t).x,
    ;

    /// The y coordinate at t (expecting t between 0 and 1).
    fn y(&self, t: Self::Scalar) -> (r: Self::Scalar)
        ensures
            r == self.point_at_parameter(t).y,
    ;

    /// The derivative at t (expecting t between 0 and 1).
    fn derivative(&self, t: Self::Scalar) -> (r: Vector<Self::Scalar>)
        ensures
            r == self.derivative_at(t),
    ;

    /// The sub-curve inside a given range of t.
    fn split_range(&self, t_range: Range<Self::Scalar>) -> (r: Self)
        ensures
            r == self.part(t_range.start, t_range.end),
    ;

    /// The sub-curves before and after t.
    fn split(&self, t: Self::Scalar) -> (r: (Self, Self))
        ensures
            r == (self.part_before(t), self.part_after(t)),
    ;

    /// The sub-curve before t.
    fn before_split(&self, t: Self::Scalar) -> (r: Self)
        ensures
            r == self.part_before(t),
    ;

    /// The sub-curve after t.
    fn after_split(&self, t: Self::Scalar) -> (r: Self)
        ensures
            r == self.part_after(t),
    ;

    /// The curve in the other direction.
    fn flip(&self) -> (r: Self)
        ensures
            r == self.reversed(),
    ;

    /// The length of the curve, approximated.
    fn approximate_length(&self, tolerance: Self::Scalar) -> (r: Self::Scalar)
        requires
            self.has_length(tolerance),
        ensures
            r == self.length_within(tolerance),
    ;
}

/// A curve with a rectangle around it.
pub trait BoundingRect {
    /// The number type of the coordinates.
    type Scalar: Scalar;

    spec fn tight_box(&self) -> Rect<Self::Scalar>;

    spec fn fast_box(&self) -> Rect<Self::Scalar>;

    /// A rectangle that contains the curve.
    fn bounding_rect(&self) -> (r: Rect<Self::Scalar>)
        ensures
            r == self.tight_box(),
    ;

    /// A possibly larger rectangle that contains the curve, where that is faster.
    fn fast_bounding_rect(&self) -> (r: Rect<Self::Scalar>)
        ensures
            r == self.fast_box(),
    ;

    /// The x coordinates of the sides of the bounding rectangle.
    fn bounding_range_x(&self) -> (r: (Self::Scalar, Self::Scalar))
        ensures
            r == (self.tight_box().spec_min_x(), self.tight_box().spec_max_x()),
    ;

    /// The y coordinates of the sides of the bounding rectangle.
    fn bounding_range_y(&self) -> (r: (Self::Scalar, Self::Scalar))
        ensures
            r == (self.tight_box().spec_min_y(), self.tight_box().spec_max_y()),
    ;

    /// The x coordinates of the sides of the fast bounding rectangle.
    fn fast_bounding_range_x(&self) -> (r: (Self::Scalar, Self::Scalar))
        ensures
            r == (self.fast_box().spec_min_x(), self.fast_box().spec_max_x()),
    ;

    /// The y coordinates of the sides of the fast bounding rectangle.
    fn fast_bounding_range_y(&self) -> (r: (Self::Scalar, Self::Scalar))
        ensures
            r == (self.fast_box().spec_min_y(), self.fast_box().spec_max_y()),
    ;
}

/// A curve that can be approximated by straight lines, one after another.
pub trait FlatteningStep: Segment {
    spec fn line_reach(&self, tolerance: Self::Scalar) -> Self::Scalar;

    /// How far along the curve the first line reaches.
    fn flattening_step(&self, tolerance: Self::Scalar) -> (r: Self::Scalar)
        ensures
            r == self.line_reach(tolerance),
    ;
}

impl<S: Scalar> Segment for Arc<S> {
    type Scalar = S;

    open spec fn point_at_start(&self) -> Point<S> {
        self.spec_from()
    }

    open spec fn point_at_end(&self) -> Point<S> {
        self.spec_to()
    }

    open spec fn point_at_parameter(&self, t: S) -> Point<S> {
        self.spec_sample(t)
    }

    open spec fn derivative_at(&self, t: S) -> Vector<S> {
        self.spec_tangent_at_angle(self.spec_get_angle(t))
    }

    open spec fn part(&self, start: S, end: S) -> Arc<S> {
        self.spec_split_range(start, end)
    }

    open spec fn part_before(&self, t: S) -> Arc<S> {
        self.spec_before_split(t)
    }

    open spec fn part_after(&self, t: S) -> Arc<S> {
        self.spec_after_split(t)
    }

    open spec fn reversed(&self) -> Arc<S> {
        self.spec_flip()
    }

    open spec fn has_length(&self, tolerance: S) -> bool {
        self.flattens(tolerance)
    }

    open spec fn length_within(&self, tolerance: S) -> S {
        flattening::polyline_length(self.spec_from(), self.spec_flattened(tolerance))
    }

    fn from(&self) -> Point<S> {
        self.from()
    }

    fn to(&self) -> Point<S> {
        self.to()
    }

    fn sample(&self, t: S) -> Point<S> {
        self.sample(t)
    }

    fn x(&self, t: S) -> S {
        self.x(t)
    }

    fn y(&self, t: S) -> S {
        self.y(t)
    }

    fn derivative(&self, t: S) -> Vector<S> {
        self.sample_tangent(t)
    }

    fn split_range(&self, t_range: Range<S>) -> Arc<S> {
        self.split_range(t_range)
    }

    fn split(&self, t: S) -> (Arc<S>, Arc<S>) {
        self.split(t)
    }

    fn before_split(&self, t: S) -> Arc<S> {
        self.before_split(t)
    }

    fn after_split(&self, t: S) -> Arc<S> {
        self.after_split(t)
    }

    fn flip(&self) -> Arc<S> {
        self.flip()
    }

    fn approximate_length(&self, tolerance: S) -> S {
        self.approximate_length(tolerance)
    }
}

impl<S: Scalar> BoundingRect for Arc<S> {
    type Scalar = S;

    open spec fn tight_box(&self) -> Rect<S> {
        self.spec_bounding_rect()
    }

    open spec fn fast_box(&self) -> Rect<S> {
        self.spec_bounding_rect()
    }

    fn bounding_rect(&self) -> Rect<S> {
        self.bounding_rect()
    }

    fn fast_bounding_rect(&self) -> Rect<S> {
        self.bounding_rect()
    }

    fn bounding_range_x(&self) -> (S, S) {
        self.bounding_range_x()
    }

    fn bounding_range_y(&self) -> (S, S) {
        self.bounding_range_y()
    }

    fn fast_bounding_range_x(&self) -> (S, S) {
        self.bounding_range_x()
    }

    fn fast_bounding_range_y(&self) -> (S, S) {
        self.bounding_range_y()
    }
}

impl<S: Scalar> FlatteningStep for Arc<S> {
    open spec fn line_reach(&self, tolerance: S) -> S {
        self.spec_flattening_step(tolerance)
    }

    fn flattening_step(&self, tolerance: S) -> S {
        self.flattening_step(tolerance)
    }
}

} // verus!
