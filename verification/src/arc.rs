//! Elliptic arc related maths and tools.
use std::ops::Range;

use crate::laws::bounds;
use crate::math::{point, vector, Angle, Point, Rect, Size, Vector};
use crate::scalar;
use crate::scalar::Scalar;
use vstd::prelude::*;

pub use crate::flattening::Flattened;
pub use crate::svg_arc::{ArcFlags, SvgArc};

verus! {

/// An elliptic arc, given by its center.
#[derive(Copy, Clone, Debug, PartialEq)]
pub struct Arc<S> {
    pub center: Point<S>,
    pub radii: Vector<S>,
    pub start_angle: Angle<S>,
    pub sweep_angle: Angle<S>,
    pub x_rotation: Angle<S>,
}

/// The vector from the center of an ellipse to its point at `angle`.
pub open spec fn spec_sample_ellipse<S: Scalar>(
    radii: Vector<S>,
    x_rotation: Angle<S>,
    angle: Angle<S>,
) -> Vector<S> {
    Vector {
        x: radii.x * angle.radians.spec_cos(),
        y: radii.y * angle.radians.spec_sin(),
    }.spec_rotate(x_rotation)
}

/// The vector from the center of an ellipse to its point at `angle`, which is
/// measured before the ellipse is turned and stretched.
pub(crate) fn sample_ellipse<S: Scalar>(
    radii: Vector<S>,
    x_rotation: Angle<S>,
    angle: Angle<S>,
) -> (r: Vector<S>)
    ensures
        r == spec_sample_ellipse(radii, x_rotation, angle),
{
    vector(radii.x.mul(angle.get().cos()), radii.y.mul(angle.get().sin())).rotate(x_rotation)
}

impl<S: Scalar> Arc<S> {
    /// The angle covered up to `t`.
    pub open spec fn swept(self, t: S) -> Angle<S> {
        Angle { radians: self.sweep_angle.radians * t }
    }

    /// The angle at `t`.
    pub open spec fn spec_get_angle(self, t: S) -> Angle<S> {
        self.start_angle + self.swept(t)
    }

    /// The angle at which the arc ends.
    pub open spec fn spec_end_angle(self) -> Angle<S> {
        self.start_angle + self.sweep_angle
    }

    /// The point at `t`.
    pub open spec fn spec_sample(self, t: S) -> Point<S> {
        self.center + spec_sample_ellipse(self.radii, self.x_rotation, self.spec_get_angle(t))
    }

    /// The first point.
    pub open spec fn spec_from(self) -> Point<S> {
        self.spec_sample(S::spec_zero())
    }

    /// The last point.
    pub open spec fn spec_to(self) -> Point<S> {
        self.spec_sample(S::spec_one())
    }

    /// The derivative of the ellipse by its angle.
    pub open spec fn spec_tangent_at_angle(self, angle: Angle<S>) -> Vector<S> {
        Vector {
            x: -self.radii.x * angle.radians.spec_sin(),
            y: self.radii.y * angle.radians.spec_cos(),
        }.spec_rotate(self.x_rotation)
    }

    /// The same ellipse, between two other angles.
    pub open spec fn with_angles(self, start: Angle<S>, sweep: Angle<S>) -> Arc<S> {
        Arc { start_angle: start, sweep_angle: sweep, ..self }
    }

    /// The part between `start` and `end`.
    pub open spec fn spec_split_range(self, start: S, end: S) -> Arc<S> {
        self.with_angles(self.start_angle + self.swept(start), self.swept(end) - self.swept(start))
    }

    /// The part before `t`.
    pub open spec fn spec_before_split(self, t: S) -> Arc<S> {
        self.with_angles(self.start_angle, self.swept(t))
    }

    /// The part after `t`.
    pub open spec fn spec_after_split(self, t: S) -> Arc<S> {
        self.with_angles(self.start_angle + self.swept(t), self.sweep_angle - self.swept(t))
    }

    /// The arc traversed backward.
    pub open spec fn spec_flip(self) -> Arc<S> {
        self.with_angles(self.start_angle + self.sweep_angle, -self.sweep_angle)
    }

    /// The box around the ellipse before it is turned, centered on the origin.
    pub open spec fn upright_box(self) -> Rect<S> {
        Rect {
            origin: Point {
                x: S::spec_zero() - self.radii.x,
                y: S::spec_zero() - self.radii.y,
            },
            size: Size {
                width: self.radii.x * S::spec_two(),
                height: self.radii.y * S::spec_two(),
            },
        }
    }

    /// The box around the ellipse, turned with it and moved to its center.
    pub open spec fn spec_bounding_rect(self) -> Rect<S> {
        self.upright_box().spec_rotate(self.x_rotation).spec_translate(
            self.center.spec_to_vector(),
        )
    }

    /// Sample the curve at t (expecting t between 0 and 1).
    pub fn sample(&self, t: S) -> (r: Point<S>)
        ensures
            r == self.spec_sample(t),
    {
        let angle = self.get_angle(t);
        self.center.add(sample_ellipse(self.radii, self.x_rotation, angle))
    }

    /// The x coordinate of the curve at t.
    pub fn x(&self, t: S) -> (r: S)
        ensures
            r == self.spec_sample(t).x,
    {
        self.sample(t).x
    }

    /// The y coordinate of the curve at t.
    pub fn y(&self, t: S) -> (r: S)
        ensures
            r == self.spec_sample(t).y,
    {
        self.sample(t).y
    }

    /// Sample the curve's tangent at t (expecting t between 0 and 1).
    pub fn sample_tangent(&self, t: S) -> (r: Vector<S>)
        ensures
            r == self.spec_tangent_at_angle(self.spec_get_angle(t)),
    {
        self.tangent_at_angle(self.get_angle(t))
    }

    /// Sample the curve's angle at t (expecting t between 0 and 1).
    pub fn get_angle(&self, t: S) -> (r: Angle<S>)
        ensures
            r == self.spec_get_angle(t),
    {
        self.start_angle.add(Angle::radians(self.sweep_angle.get().mul(t)))
    }

    /// The angle at which the curve ends.
    pub fn end_angle(&self) -> (r: Angle<S>)
        ensures
            r == self.start_angle + self.sweep_angle,
            r == self.spec_end_angle(),
    {
        self.start_angle.add(self.sweep_angle)
    }

    /// The point at which the curve starts.
    pub fn from(&self) -> (r: Point<S>)
        ensures
            r == self.spec_from(),
    {
        self.sample(S::zero())
    }

    /// The point at which the curve ends.
    pub fn to(&self) -> (r: Point<S>)
        ensures
            r == self.spec_to(),
    {
        self.sample(S::one())
    }

    /// Return the sub-curve inside a given range of t.
    ///
    /// This is equivalent splitting at the range's end points.
    pub fn split_range(&self, t_range: Range<S>) -> (r: Arc<S>)
        ensures
            r == self.spec_split_range(t_range.start, t_range.end),
    {
        let angle_1 = Angle::radians(self.sweep_angle.get().mul(t_range.start));
        let angle_2 = Angle::radians(self.sweep_angle.get().mul(t_range.end));

        Arc {
            center: self.center,
            radii: self.radii,
            start_angle: self.start_angle.add(angle_1),
            sweep_angle: angle_2.sub(angle_1),
            x_rotation: self.x_rotation,
        }
    }

    /// Split this curve into two sub-curves.
    pub fn split(&self, t: S) -> (r: (Arc<S>, Arc<S>))
        ensures
            r == (self.spec_before_split(t), self.spec_after_split(t)),
    {
        let split_angle = Angle::radians(self.sweep_angle.get().mul(t));
        (
            Arc {
                center: self.center,
                radii: self.radii,
                start_angle: self.start_angle,
                sweep_angle: split_angle,
                x_rotation: self.x_rotation,
            },
            Arc {
                center: self.center,
                radii: self.radii,
                start_angle: self.start_angle.add(split_angle),
                sweep_angle: self.sweep_angle.sub(split_angle),
                x_rotation: self.x_rotation,
            },
        )
    }

    /// Return the curve before the split point.
    pub fn before_split(&self, t: S) -> (r: Arc<S>)
        ensures
            r == self.spec_before_split(t),
    {
        let split_angle = Angle::radians(self.sweep_angle.get().mul(t));
        Arc {
            center: self.center,
            radii: self.radii,
            start_angle: self.start_angle,
            sweep_angle: split_angle,
            x_rotation: self.x_rotation,
        }
    }

    /// Return the curve after the split point.
    pub fn after_split(&self, t: S) -> (r: Arc<S>)
        ensures
            r == self.spec_after_split(t),
    {
        let split_angle = Angle::radians(self.sweep_angle.get().mul(t));
        Arc {
            center: self.center,
            radii: self.radii,
            start_angle: self.start_angle.add(split_angle),
            sweep_angle: self.sweep_angle.sub(split_angle),
            x_rotation: self.x_rotation,
        }
    }

    /// Swap the direction of the segment.
    pub fn flip(&self) -> (r: Arc<S>)
        ensures
            r == self.spec_flip(),
    {
        let mut arc = *self;
        arc.start_angle = arc.start_angle.add(self.sweep_angle);
        arc.sweep_angle = self.sweep_angle.neg();

        arc
    }

    /// Returns a conservative rectangle that contains the curve.
    pub fn bounding_rect(&self) -> (r: Rect<S>)
        ensures
            r == self.spec_bounding_rect(),
            scalar::exact::<S>() ==> forall|t: S| r.covers(#[trigger] self.spec_sample(t)),
    {
        proof {
            if scalar::exact::<S>() {
                assert forall|t: S|
                    self.spec_bounding_rect().covers(#[trigger] self.spec_sample(t)) by {
                    bounds::law_bounding_rect_contains_the_curve(*self, t);
                }
            }
        }
        let upright = Rect {
            origin: point(S::zero().sub(self.radii.x), S::zero().sub(self.radii.y)),
            size: Size { width: self.radii.x.mul(S::two()), height: self.radii.y.mul(S::two()) },
        };
        upright.rotate(self.x_rotation).translate(self.center.to_vector())
    }

    /// The x coordinates of the sides of the bounding rectangle.
    pub fn bounding_range_x(&self) -> (r: (S, S))
        ensures
            r == (self.spec_bounding_rect().spec_min_x(), self.spec_bounding_rect().spec_max_x()),
    {
        let r = self.bounding_rect();
        (r.min_x(), r.max_x())
    }

    /// The y coordinates of the sides of the bounding rectangle.
    pub fn bounding_range_y(&self) -> (r: (S, S))
        ensures
            r == (self.spec_bounding_rect().spec_min_y(), self.spec_bounding_rect().spec_max_y()),
    {
        let r = self.bounding_rect();
        (r.min_y(), r.max_y())
    }

    /// The derivative of the ellipse by its angle.
    pub(crate) fn tangent_at_angle(&self, angle: Angle<S>) -> (r: Vector<S>)
        ensures
            r == self.spec_tangent_at_angle(angle),
    {
        let a = angle.get();
        vector(self.radii.x.neg().mul(a.sin()), self.radii.y.mul(a.cos())).rotate(self.x_rotation)
    }
}

} // verus!
