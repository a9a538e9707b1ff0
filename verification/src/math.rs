//! Points, vectors, angles and rectangles in the plane.
use crate::scalar;
use crate::scalar::Scalar;
use vstd::prelude::*;

verus! {

/// A position in the plane.
#[derive(Copy, Clone, Debug, PartialEq)]
pub struct Point<S> {
    pub x: S,
    pub y: S,
}

/// A displacement in the plane.
#[derive(Copy, Clone, Debug, PartialEq)]
pub struct Vector<S> {
    pub x: S,
    pub y: S,
}

/// A width and a height.
#[derive(Copy, Clone, Debug, PartialEq)]
pub struct Size<S> {
    pub width: S,
    pub height: S,
}

/// An angle, in radians.
#[derive(Copy, Clone, Debug, PartialEq)]
pub struct Angle<S> {
    pub radians: S,
}

/// A rectangle whose sides are parallel to the axes.
#[derive(Copy, Clone, Debug, PartialEq)]
pub struct Rect<S> {
    pub origin: Point<S>,
    pub size: Size<S>,
}

/// The point with these coordinates.
pub fn point<S>(x: S, y: S) -> (r: Point<S>)
    ensures
        r == (Point { x, y }),
{
    Point { x, y }
}

/// The vector with these coordinates.
pub fn vector<S>(x: S, y: S) -> (r: Vector<S>)
    ensures
        r == (Vector { x, y }),
{
    Vector { x, y }
}

impl<S: Scalar> Point<S> {
    /// The vector from the origin to this point.
    pub open spec fn spec_to_vector(self) -> Vector<S> {
        Vector { x: self.x, y: self.y }
    }

    /// `self + v`.
    pub open spec fn spec_add(self, v: Vector<S>) -> Point<S> {
        Point { x: self.x + v.x, y: self.y + v.y }
    }

    /// `self - from`: the vector that leads from `from` to this point.
    pub open spec fn spec_sub(self, from: Point<S>) -> Vector<S> {
        Vector { x: self.x - from.x, y: self.y - from.y }
    }

    /// Both coordinates are the same numbers.
    pub open spec fn spec_equals(self, other: Point<S>) -> bool {
        self.x.spec_equals(other.x) && self.y.spec_equals(other.y)
    }

    /// The vector from the origin to this point.
    pub fn to_vector(self) -> (r: Vector<S>)
        ensures
            r == self.spec_to_vector(),
    {
        Vector { x: self.x, y: self.y }
    }

    /// This point, moved by `v`.
    pub fn add(self, v: Vector<S>) -> (r: Point<S>)
        ensures
            r == self + v,
    {
        Point { x: self.x.add(v.x), y: self.y.add(v.y) }
    }

    /// The vector that leads from `from` to this point.
    pub fn sub(self, from: Point<S>) -> (r: Vector<S>)
        ensures
            r == self - from,
    {
        Vector { x: self.x.sub(from.x), y: self.y.sub(from.y) }
    }

    /// Whether both coordinates are the same numbers.
    pub fn equals(self, other: Point<S>) -> (r: bool)
        ensures
            r == self.spec_equals(other),
    {
        self.x.equals(other.x) && self.y.equals(other.y)
    }
}

impl<S: Scalar> Vector<S> {
    /// The cross product: the area that the two vectors span, with a sign.
    pub open spec fn spec_cross(self, other: Vector<S>) -> S {
        self.x * other.y - self.y * other.x
    }

    /// The Euclidean length.
    pub open spec fn spec_length(self) -> S {
        (self.x * self.x + self.y * self.y).spec_sqrt()
    }

    /// This vector, turned by `angle`.
    pub open spec fn spec_rotate(self, angle: Angle<S>) -> Vector<S> {
        let sin = angle.radians.spec_sin();
        let cos = angle.radians.spec_cos();
        Vector { x: self.x * cos - self.y * sin, y: self.y * cos + self.x * sin }
    }

    /// The cross product: the area that the two vectors span, with a sign.
    pub fn cross(self, other: Vector<S>) -> (r: S)
        ensures
            r == self.spec_cross(other),
    {
        self.x.mul(other.y).sub(self.y.mul(other.x))
    }

    /// The Euclidean length.
    pub fn length(self) -> (r: S)
        ensures
            r == self.spec_length(),
    {
        self.x.mul(self.x).add(self.y.mul(self.y)).sqrt()
    }

    /// This vector, turned by `angle` from the x axis toward the y axis.
    pub fn rotate(self, angle: Angle<S>) -> (r: Vector<S>)
        ensures
            r == self.spec_rotate(angle),
    {
        let sin = angle.radians.sin();
        let cos = angle.radians.cos();
        Vector {
            x: self.x.mul(cos).sub(self.y.mul(sin)),
            y: self.y.mul(cos).add(self.x.mul(sin)),
        }
    }
}

impl<S: Scalar> Angle<S> {
    /// `self + other`.
    pub open spec fn spec_add(self, other: Angle<S>) -> Angle<S> {
        Angle { radians: self.radians + other.radians }
    }

    /// `self - other`.
    pub open spec fn spec_sub(self, other: Angle<S>) -> Angle<S> {
        Angle { radians: self.radians - other.radians }
    }

    /// `-self`.
    pub open spec fn spec_neg(self) -> Angle<S> {
        Angle { radians: -self.radians }
    }

    /// `self * factor`.
    pub open spec fn spec_mul(self, factor: S) -> Angle<S> {
        Angle { radians: self.radians * factor }
    }

    /// The angle of that many radians.
    pub fn radians(radians: S) -> (r: Angle<S>)
        ensures
            r == (Angle { radians }),
    {
        Angle { radians }
    }

    /// The number of radians.
    pub fn get(self) -> (r: S)
        ensures
            r == self.radians,
    {
        self.radians
    }

    /// The sum of two angles.
    pub fn add(self, other: Angle<S>) -> (r: Angle<S>)
        ensures
            r == self + other,
    {
        Angle { radians: self.radians.add(other.radians) }
    }

    /// The difference of two angles.
    pub fn sub(self, other: Angle<S>) -> (r: Angle<S>)
        ensures
            r == self - other,
    {
        Angle { radians: self.radians.sub(other.radians) }
    }

    /// The opposite angle.
    pub fn neg(self) -> (r: Angle<S>)
        ensures
            r == -self,
    {
        Angle { radians: self.radians.neg() }
    }

    /// A multiple of this angle.
    pub fn mul(self, factor: S) -> (r: Angle<S>)
        ensures
            r == self * factor,
    {
        Angle { radians: self.radians.mul(factor) }
    }
}

impl<S: Scalar> Rect<S> {
    pub open spec fn spec_min_x(self) -> S {
        self.origin.x
    }

    pub open spec fn spec_max_x(self) -> S {
        self.origin.x + self.size.width
    }

    pub open spec fn spec_min_y(self) -> S {
        self.origin.y
    }

    pub open spec fn spec_max_y(self) -> S {
        self.origin.y + self.size.height
    }

    /// The point lies in the rectangle or on its border.
    pub open spec fn covers(self, p: Point<S>) -> bool {
        &&& self.spec_min_x() <= p.x
        &&& p.x <= self.spec_max_x()
        &&& self.spec_min_y() <= p.y
        &&& p.y <= self.spec_max_y()
    }

    /// The smallest rectangle that holds four points, given from the origin.
    pub open spec fn spec_around(
        a: Vector<S>,
        b: Vector<S>,
        c: Vector<S>,
        d: Vector<S>,
    ) -> Rect<S> {
        let low_x = scalar::spec_least(a.x, b.x, c.x, d.x);
        let low_y = scalar::spec_least(a.y, b.y, c.y, d.y);
        let high_x = scalar::spec_greatest(a.x, b.x, c.x, d.x);
        let high_y = scalar::spec_greatest(a.y, b.y, c.y, d.y);
        Rect {
            origin: Point { x: low_x, y: low_y },
            size: Size { width: high_x - low_x, height: high_y - low_y },
        }
    }

    /// The smallest upright rectangle around this one turned about the origin.
    pub open spec fn spec_rotate(self, angle: Angle<S>) -> Rect<S> {
        Rect::spec_around(
            Vector { x: self.spec_min_x(), y: self.spec_min_y() }.spec_rotate(angle),
            Vector { x: self.spec_max_x(), y: self.spec_min_y() }.spec_rotate(angle),
            Vector { x: self.spec_min_x(), y: self.spec_max_y() }.spec_rotate(angle),
            Vector { x: self.spec_max_x(), y: self.spec_max_y() }.spec_rotate(angle),
        )
    }

    /// This rectangle, moved by `v`.
    pub open spec fn spec_translate(self, v: Vector<S>) -> Rect<S> {
        Rect { origin: self.origin + v, size: self.size }
    }

    /// The left side.
    pub fn min_x(&self) -> (r: S)
        ensures
            r == self.spec_min_x(),
    {
        self.origin.x
    }

    /// The right side.
    pub fn max_x(&self) -> (r: S)
        ensures
            r == self.spec_max_x(),
    {
        self.origin.x.add(self.size.width)
    }

    /// The side of the lesser y.
    pub fn min_y(&self) -> (r: S)
        ensures
            r == self.spec_min_y(),
    {
        self.origin.y
    }

    /// The side of the greater y.
    pub fn max_y(&self) -> (r: S)
        ensures
            r == self.spec_max_y(),
    {
        self.origin.y.add(self.size.height)
    }

    /// The smallest rectangle that holds four points, given from the origin.
    pub fn around(a: Vector<S>, b: Vector<S>, c: Vector<S>, d: Vector<S>) -> (r: Rect<S>)
        ensures
            r == Rect::spec_around(a, b, c, d),
    {
        let low_x = scalar::least(a.x, b.x, c.x, d.x);
        let low_y = scalar::least(a.y, b.y, c.y, d.y);
        let high_x = scalar::greatest(a.x, b.x, c.x, d.x);
        let high_y = scalar::greatest(a.y, b.y, c.y, d.y);
        Rect {
            origin: Point { x: low_x, y: low_y },
            size: Size { width: high_x.sub(low_x), height: high_y.sub(low_y) },
        }
    }

    /// The smallest upright rectangle around this one turned about the origin.
    pub fn rotate(&self, angle: Angle<S>) -> (r: Rect<S>)
        ensures
            r == self.spec_rotate(angle),
    {
        let (x0, x1) = (self.min_x(), self.max_x());
        let (y0, y1) = (self.min_y(), self.max_y());
        Rect::around(
            vector(x0, y0).rotate(angle),
            vector(x1, y0).rotate(angle),
            vector(x0, y1).rotate(angle),
            vector(x1, y1).rotate(angle),
        )
    }

    /// This rectangle, moved by `v`.
    pub fn translate(&self, v: Vector<S>) -> (r: Rect<S>)
        ensures
            r == self.spec_translate(v),
    {
        Rect { origin: self.origin.add(v), size: self.size }
    }
}

} // verus!
