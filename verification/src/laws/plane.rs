//! Laws of points, vectors, angles and rectangles.
use crate::laws::angles;
use crate::laws::lengths;
use crate::laws::reals;
use crate::math::{Angle, Point, Rect, Vector};
use crate::scalar;
use crate::scalar::Scalar;
use crate::utils;
use vstd::prelude::*;

verus! {

/// Vectors lead from point to point, coordinate by coordinate.
pub proof fn law_vectors_lead_from_point_to_point<S: Scalar>(
    p: Point<S>,
    q: Point<S>,
    v: Vector<S>,
)
    ensures
        (p + v).x == p.x + v.x,
        (p + v).y == p.y + v.y,
        (q - p).x == q.x - p.x,
        (q - p).y == q.y - p.y,
        p.spec_to_vector() == (Vector { x: p.x, y: p.y }),
        p.spec_equals(q) <==> p.x.spec_equals(q.x) && p.y.spec_equals(q.y),
        scalar::exact::<S>() ==> p + (q - p) == q,
        scalar::exact::<S>() ==> (p + v) - p == v,
{
    if scalar::exact::<S>() {
        assert(scalar::same_value((p + (q - p)).x, q.x));
        assert(scalar::same_value((p + (q - p)).y, q.y));
        assert(scalar::same_value(((p + v) - p).x, v.x));
        assert(scalar::same_value(((p + v) - p).y, v.y));
    }
}

/// Angles add up as their numbers of radians do.
pub proof fn law_angles_add_up<S: Scalar>(a: Angle<S>, b: Angle<S>, k: S)
    ensures
        (a + b).radians == a.radians + b.radians,
        (a - b).radians == a.radians - b.radians,
        (-a).radians == -a.radians,
        (a * k).radians == a.radians * k,
        scalar::exact::<S>() ==> (a + b) - b == a,
{
    if scalar::exact::<S>() {
        assert(scalar::same_value(((a + b) - b).radians, a.radians));
    }
}

/// Turning a vector adds to its direction and keeps its length.
pub proof fn law_turned_vectors<S: Scalar>(length: S, a: Angle<S>, b: Angle<S>)
    requires
        scalar::exact::<S>(),
    ensures
        ({
            let v = Vector {
                x: length * a.radians.spec_cos(),
                y: length * a.radians.spec_sin(),
            };
            let sum = a.radians + b.radians;
            v.spec_rotate(b) == Vector { x: length * sum.spec_cos(), y: length * sum.spec_sin() }
        }),
{
    let v = Vector { x: length * a.radians.spec_cos(), y: length * a.radians.spec_sin() };
    let sum = a.radians + b.radians;
    let turned = v.spec_rotate(b);
    let l = length.value();
    let (c1, s1) = (a.radians.spec_cos().value(), a.radians.spec_sin().value());
    let (c2, s2) = (b.radians.spec_cos().value(), b.radians.spec_sin().value());
    angles::lemma_sum_of_angles(a.radians, b.radians);
    reals::lemma_distribute(l, c1 * c2, s1 * s2);
    reals::lemma_distribute(l, s1 * c2, c1 * s2);
    assert(l * c1 * c2 == l * (c1 * c2) && l * s1 * s2 == l * (s1 * s2)) by (nonlinear_arith);
    assert(l * s1 * c2 == l * (s1 * c2) && l * c1 * s2 == l * (c1 * s2)) by (nonlinear_arith);
    assert(scalar::same_value(turned.x, length * sum.spec_cos()));
    assert(scalar::same_value(turned.y, length * sum.spec_sin()));
}

/// A turned vector, coordinate by coordinate: each one is turned by itself, and they add up.
pub proof fn law_turned_coordinates<S: Scalar>(v: Vector<S>, angle: Angle<S>)
    ensures
        ({
            let (cos, sin) = (angle.radians.spec_cos(), angle.radians.spec_sin());
            &&& v.spec_rotate(angle).x == v.x * cos - v.y * sin
            &&& v.spec_rotate(angle).y == v.y * cos + v.x * sin
        }),
{
}

/// The length of a vector is Pythagoras', and does not change when it is turned.
pub proof fn law_lengths<S: Scalar>(v: Vector<S>, angle: Angle<S>)
    ensures
        v.spec_length() == (v.x * v.x + v.y * v.y).spec_sqrt(),
        scalar::exact::<S>() ==> v.spec_length() >= S::spec_zero(),
        scalar::exact::<S>() ==> v.spec_length() * v.spec_length() == v.x * v.x + v.y * v.y,
        scalar::exact::<S>() ==> v.spec_rotate(angle).spec_length() == v.spec_length(),
{
    if scalar::exact::<S>() {
        let turned = v.spec_rotate(angle);
        let (x, y) = (v.x.value(), v.y.value());
        let (cos, sin) = (angle.radians.spec_cos().value(), angle.radians.spec_sin().value());
        lengths::lemma_length(v);
        lengths::lemma_length(turned);
        reals::lemma_rotation_keeps_dot(x, y, x, y, cos, sin);
        reals::lemma_same_square(turned.spec_length().value(), v.spec_length().value());
        assert(scalar::same_value(turned.spec_length(), v.spec_length()));
        assert(scalar::same_value(v.spec_length() * v.spec_length(), v.x * v.x + v.y * v.y));
    }
}

/// The cross product of two vectors is their lengths times the sine of the angle between them.
pub proof fn law_cross_product<S: Scalar>(l: S, a: S, m: S, b: S)
    requires
        scalar::exact::<S>(),
    ensures
        ({
            let v = Vector { x: l * a.spec_cos(), y: l * a.spec_sin() };
            let w = Vector { x: m * b.spec_cos(), y: m * b.spec_sin() };
            v.spec_cross(w) == l * m * (b - a).spec_sin()
        }),
{
    let (v, w) = (
        Vector { x: l * a.spec_cos(), y: l * a.spec_sin() },
        Vector { x: m * b.spec_cos(), y: m * b.spec_sin() },
    );
    let (lv, mv) = (l.value(), m.value());
    let (c1, s1) = (a.spec_cos().value(), a.spec_sin().value());
    let (c2, s2) = (b.spec_cos().value(), b.spec_sin().value());
    reals::lemma_pair(lv, c1, mv, s2);
    reals::lemma_pair(lv, s1, mv, c2);
    assert(c1 * s2 == s2 * c1 && s1 * c2 == c2 * s1) by (nonlinear_arith);
    reals::lemma_distribute(lv * mv, s2 * c1, c2 * s1);
    assert((b - a).spec_sin().value() == s2 * c1 - c2 * s1);
    assert(scalar::same_value(v.spec_cross(w), l * m * (b - a).spec_sin()));
}

/// The cross product, coordinate by coordinate.
pub proof fn law_cross_coordinates<S: Scalar>(v: Vector<S>, w: Vector<S>)
    ensures
        v.spec_cross(w) == v.x * w.y - v.y * w.x,
        scalar::exact::<S>() ==> v.spec_cross(w) == -w.spec_cross(v),
{
    if scalar::exact::<S>() {
        let (x, y, u, t) = (v.x.value(), v.y.value(), w.x.value(), w.y.value());
        assert(x * t == t * x && y * u == u * y) by (nonlinear_arith);
        assert(scalar::same_value(v.spec_cross(w), -w.spec_cross(v)));
    }
}

/// The least of four numbers is one of them, and below none; the greatest is one of them, and
/// above none.
pub proof fn law_extremes<S: Scalar>(a: S, b: S, c: S, d: S)
    ensures
        ({
            let (low, high) = (scalar::spec_least(a, b, c, d), scalar::spec_greatest(a, b, c, d));
            &&& low == a || low == b || low == c || low == d
            &&& high == a || high == b || high == c || high == d
            &&& scalar::exact::<S>() ==> low <= a && low <= b && low <= c && low <= d
            &&& scalar::exact::<S>() ==> high >= a && high >= b && high >= c && high >= d
        }),
{
}

/// The sides of a rectangle are where its origin and its size put them, and move with it.
pub proof fn law_sides_of_a_rectangle<S: Scalar>(r: Rect<S>, v: Vector<S>, p: Point<S>)
    ensures
        r.spec_min_x() == r.origin.x,
        r.spec_max_x() == r.origin.x + r.size.width,
        r.spec_min_y() == r.origin.y,
        r.spec_max_y() == r.origin.y + r.size.height,
        r.covers(p) <==> r.spec_min_x() <= p.x && p.x <= r.spec_max_x() && r.spec_min_y() <= p.y
            && p.y <= r.spec_max_y(),
        r.spec_translate(v).size == r.size,
        r.spec_translate(v).origin.x == r.origin.x + v.x,
        r.spec_translate(v).origin.y == r.origin.y + v.y,
{
}

/// The rectangle around a turned rectangle covers its turned corners, and every side of it
/// touches one.
pub proof fn law_turned_rectangle<S: Scalar>(r: Rect<S>, angle: Angle<S>)
    requires
        scalar::exact::<S>(),
    ensures
        ({
            let turned = r.spec_rotate(angle);
            let (x0, x1) = (r.origin.x, r.origin.x + r.size.width);
            let (y0, y1) = (r.origin.y, r.origin.y + r.size.height);
            let a = Vector { x: x0, y: y0 }.spec_rotate(angle);
            let b = Vector { x: x1, y: y0 }.spec_rotate(angle);
            let c = Vector { x: x0, y: y1 }.spec_rotate(angle);
            let d = Vector { x: x1, y: y1 }.spec_rotate(angle);
            let (low_x, high_x) = (turned.origin.x, turned.origin.x + turned.size.width);
            let (low_y, high_y) = (turned.origin.y, turned.origin.y + turned.size.height);
            &&& low_x == a.x || low_x == b.x || low_x == c.x || low_x == d.x
            &&& high_x == a.x || high_x == b.x || high_x == c.x || high_x == d.x
            &&& low_y == a.y || low_y == b.y || low_y == c.y || low_y == d.y
            &&& high_y == a.y || high_y == b.y || high_y == c.y || high_y == d.y
            &&& low_x <= a.x && low_x <= b.x && low_x <= c.x && low_x <= d.x
            &&& high_x >= a.x && high_x >= b.x && high_x >= c.x && high_x >= d.x
            &&& low_y <= a.y && low_y <= b.y && low_y <= c.y && low_y <= d.y
            &&& high_y >= a.y && high_y >= b.y && high_y >= c.y && high_y >= d.y
        }),
{
    let turned = r.spec_rotate(angle);
    let (x0, x1) = (r.origin.x, r.origin.x + r.size.width);
    let (y0, y1) = (r.origin.y, r.origin.y + r.size.height);
    let a = Vector { x: x0, y: y0 }.spec_rotate(angle);
    let b = Vector { x: x1, y: y0 }.spec_rotate(angle);
    let c = Vector { x: x0, y: y1 }.spec_rotate(angle);
    let d = Vector { x: x1, y: y1 }.spec_rotate(angle);
    law_extremes(a.x, b.x, c.x, d.x);
    law_extremes(a.y, b.y, c.y, d.y);
    assert(scalar::same_value(
        turned.origin.x + turned.size.width,
        scalar::spec_greatest(a.x, b.x, c.x, d.x),
    ));
    assert(scalar::same_value(
        turned.origin.y + turned.size.height,
        scalar::spec_greatest(a.y, b.y, c.y, d.y),
    ));
}

/// The rectangle around a turned rectangle is that around its turned corners, whether or not
/// numbers round.
pub proof fn law_box_around_turned_corners<S: Scalar>(r: Rect<S>, angle: Angle<S>)
    ensures
        ({
            let turned = r.spec_rotate(angle);
            let (x0, x1) = (r.origin.x, r.origin.x + r.size.width);
            let (y0, y1) = (r.origin.y, r.origin.y + r.size.height);
            let a = Vector { x: x0, y: y0 }.spec_rotate(angle);
            let b = Vector { x: x1, y: y0 }.spec_rotate(angle);
            let c = Vector { x: x0, y: y1 }.spec_rotate(angle);
            let d = Vector { x: x1, y: y1 }.spec_rotate(angle);
            &&& turned.origin.x == scalar::spec_least(a.x, b.x, c.x, d.x)
            &&& turned.origin.y == scalar::spec_least(a.y, b.y, c.y, d.y)
            &&& turned.size.width == scalar::spec_greatest(a.x, b.x, c.x, d.x) - turned.origin.x
            &&& turned.size.height == scalar::spec_greatest(a.y, b.y, c.y, d.y) - turned.origin.y
        }),
{
}

/// The rectangle around four points reaches from the least of their coordinates to the greatest,
/// whether or not numbers round.
pub proof fn law_box_around_points<S: Scalar>(
    a: Vector<S>,
    b: Vector<S>,
    c: Vector<S>,
    d: Vector<S>,
)
    ensures
        ({
            let r = Rect::spec_around(a, b, c, d);
            &&& r.origin.x == scalar::spec_least(a.x, b.x, c.x, d.x)
            &&& r.origin.y == scalar::spec_least(a.y, b.y, c.y, d.y)
            &&& r.size.width == scalar::spec_greatest(a.x, b.x, c.x, d.x) - r.origin.x
            &&& r.size.height == scalar::spec_greatest(a.y, b.y, c.y, d.y) - r.origin.y
        }),
{
}

/// Of numbers that may not be ordered, the least is found by comparing each with the least of
/// those before it, and the greatest likewise.
pub proof fn law_extremes_by_comparison<S: Scalar>(a: S, b: S, c: S, d: S)
    ensures
        ({
            let low = if b < a {
                b
            } else {
                a
            };
            let lower = if c < low {
                c
            } else {
                low
            };
            let high = if b > a {
                b
            } else {
                a
            };
            let higher = if c > high {
                c
            } else {
                high
            };
            &&& d < lower ==> scalar::spec_least(a, b, c, d) == d
            &&& !(d < lower) ==> scalar::spec_least(a, b, c, d) == lower
            &&& d > higher ==> scalar::spec_greatest(a, b, c, d) == d
            &&& !(d > higher) ==> scalar::spec_greatest(a, b, c, d) == higher
        }),
{
}

/// The directed angle from one vector to another is the turn, of less than a full one, that
/// takes the direction of the first to that of the second: its cosine and its sine go with the
/// dot product and the cross product.
pub proof fn law_directed_angle<S: Scalar>(v1: Vector<S>, v2: Vector<S>)
    requires
        scalar::exact::<S>(),
        v1 != (Vector { x: S::spec_zero(), y: S::spec_zero() }),
        v2 != (Vector { x: S::spec_zero(), y: S::spec_zero() }),
    ensures
        ({
            let d = utils::spec_directed_angle(v1, v2);
            let lengths = v1.spec_length() * v2.spec_length();
            &&& S::spec_zero() <= d && d < S::spec_two() * S::spec_pi()
            &&& lengths * d.spec_cos() == v1.x * v2.x + v1.y * v2.y
            &&& lengths * d.spec_sin() == v1.x * v2.y - v1.y * v2.x
        }),
{
    let zero = S::spec_zero();
    if v1.x.value() == 0real && v1.y.value() == 0real {
        assert(scalar::same_value(v1.x, zero) && scalar::same_value(v1.y, zero));
    }
    if v2.x.value() == 0real && v2.y.value() == 0real {
        assert(scalar::same_value(v2.x, zero) && scalar::same_value(v2.y, zero));
    }
    let d = utils::spec_directed_angle(v1, v2);
    let (l1, l2) = (angles::lemma_heading(v1), angles::lemma_heading(v2));
    let (h1, h2) = (angles::heading(v1), angles::heading(v2));
    let turns = angles::lemma_directed_angle(v1, v2);
    angles::lemma_polar_length(l1, h1, v1);
    angles::lemma_polar_length(l2, h2, v2);
    let (c1, s1) = (h1.spec_cos().value(), h1.spec_sin().value());
    let (c2, s2) = (h2.spec_cos().value(), h2.spec_sin().value());
    assert((h2 - h1).spec_sin().value() == s2 * c1 - c2 * s1);
    assert((h2 - h1).spec_cos().value() == c2 * c1 + s2 * s1);
    reals::lemma_pair(l1, c1, l2, s2);
    reals::lemma_pair(l1, s1, l2, c2);
    reals::lemma_pair(l1, c1, l2, c2);
    reals::lemma_pair(l1, s1, l2, s2);
    let scale = l1 * l2;
    reals::lemma_distribute(scale, s2 * c1, c2 * s1);
    reals::lemma_distribute(scale, c2 * c1, s2 * s1);
    assert(c1 * s2 == s2 * c1 && s1 * c2 == c2 * s1) by (nonlinear_arith);
    assert(c1 * c2 == c2 * c1 && s1 * s2 == s2 * s1) by (nonlinear_arith);
    let lengths = v1.spec_length() * v2.spec_length();
    assert(scalar::same_value(lengths * d.spec_cos(), v1.x * v2.x + v1.y * v2.y));
    assert(scalar::same_value(lengths * d.spec_sin(), v1.x * v2.y - v1.y * v2.x));
}

/// Whatever the numbers, the directed angle is the difference of the directions, brought up by
/// a full turn where it is below zero.
pub proof fn law_directed_angle_of_directions<S: Scalar>(v1: Vector<S>, v2: Vector<S>)
    ensures
        ({
            let difference = v2.y.spec_atan2(v2.x) - v1.y.spec_atan2(v1.x);
            let d = utils::spec_directed_angle(v1, v2);
            &&& !(difference < S::spec_zero()) ==> d == difference
            &&& difference < S::spec_zero() ==> d == difference + S::spec_two() * S::spec_pi()
        }),
{
}

} // verus!
