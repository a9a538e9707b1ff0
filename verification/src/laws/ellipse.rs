//! Laws of the ellipse that an arc is a part of.
use crate::arc::Arc;
use crate::laws::angles;
use crate::laws::lengths;
use crate::laws::reals;
use crate::line::Line;
use crate::math::{Angle, Point, Vector};
use crate::scalar;
use crate::scalar::Scalar;
use vstd::prelude::*;

verus! {

/// The point satisfies the equation of the arc's ellipse.
pub open spec fn on_ellipse<S: Scalar>(p: Point<S>, arc: Arc<S>) -> bool {
    let (rx, ry) = (arc.radii.x, arc.radii.y);
    let v = (p - arc.center).spec_rotate(-arc.x_rotation);
    v.x * v.x * (ry * ry) + v.y * v.y * (rx * rx) == rx * rx * (ry * ry)
}

/// The point of the ellipse at an angle, from the center and in the axes of the ellipse.
pub open spec fn sample_in_the_axes<S: Scalar>(arc: Arc<S>, angle: Angle<S>) -> Vector<S> {
    Vector {
        x: arc.radii.x * angle.radians.spec_cos(),
        y: arc.radii.y * angle.radians.spec_sin(),
    }
}

/// The derivative of [`sample_in_the_axes`] by the angle.
pub open spec fn tangent_in_the_axes<S: Scalar>(arc: Arc<S>, angle: Angle<S>) -> Vector<S> {
    Vector {
        x: -arc.radii.x * angle.radians.spec_sin(),
        y: arc.radii.y * angle.radians.spec_cos(),
    }
}

/// The line that touches the ellipse of an arc at an angle: through the point at that angle,
/// along the derivative of the point by the angle.
pub open spec fn touching_line<S: Scalar>(arc: Arc<S>, angle: S) -> Line<S> {
    let (cos, sin) = (arc.x_rotation.radians.spec_cos(), arc.x_rotation.radians.spec_sin());
    let (x, y) = (arc.radii.x * angle.spec_cos(), arc.radii.y * angle.spec_sin());
    let (u, v) = (-arc.radii.x * angle.spec_sin(), arc.radii.y * angle.spec_cos());
    Line {
        point: Point {
            x: arc.center.x + (x * cos - y * sin),
            y: arc.center.y + (y * cos + x * sin),
        },
        vector: Vector { x: u * cos - v * sin, y: v * cos + u * sin },
    }
}

/// Every point of the curve satisfies the equation of its ellipse.
pub proof fn law_samples_lie_on_the_ellipse<S: Scalar>(arc: Arc<S>, t: S)
    requires
        scalar::exact::<S>(),
    ensures
        on_ellipse(arc.spec_sample(t), arc),
{
    let angle = arc.spec_get_angle(t).radians;
    let phi = arc.x_rotation.radians;
    let (rx, ry) = (arc.radii.x.value(), arc.radii.y.value());
    let (u, w) = (angle.spec_cos().value(), angle.spec_sin().value());
    let v = (arc.spec_sample(t) - arc.center).spec_rotate(-arc.x_rotation);
    let (p, q) = (rx * u, ry * w);
    lemma_turned_back(phi, p, q);
    assert(v.x.value() == p && v.y.value() == q);

    let (xx, yy) = (rx * rx, ry * ry);
    reals::lemma_pair(rx, u, rx, u);
    reals::lemma_pair(ry, w, ry, w);
    let (uu, ww) = (u * u, w * w);
    assert(xx * uu * yy == xx * yy * uu && yy * ww * xx == xx * yy * ww) by (nonlinear_arith);
    reals::lemma_distribute(xx * yy, ww, uu);
    let area = xx * yy;
    assert(area * 1real == area);
    let (rx_s, ry_s) = (arc.radii.x, arc.radii.y);
    assert(scalar::same_value(
        v.x * v.x * (ry_s * ry_s) + v.y * v.y * (rx_s * rx_s),
        rx_s * rx_s * (ry_s * ry_s),
    ));
}

/// The tangent, in the axes of the ellipse, is the derivative of the point by its angle.
proof fn lemma_tangent_in_the_axes<S: Scalar>(arc: Arc<S>, t: S)
    requires
        scalar::exact::<S>(),
    ensures
        arc.spec_tangent_at_angle(arc.spec_get_angle(t)).spec_rotate(-arc.x_rotation)
            == tangent_in_the_axes(arc, arc.spec_get_angle(t)),
{
    let angle = arc.spec_get_angle(t).radians;
    let (rx, ry) = (arc.radii.x.value(), arc.radii.y.value());
    let w = arc.spec_tangent_at_angle(arc.spec_get_angle(t)).spec_rotate(-arc.x_rotation);
    let upright = tangent_in_the_axes(arc, arc.spec_get_angle(t));
    lemma_turned_back(
        arc.x_rotation.radians,
        -rx * angle.spec_sin().value(),
        ry * angle.spec_cos().value(),
    );
    assert(scalar::same_value(w.x, upright.x));
    assert(scalar::same_value(w.y, upright.y));
}

/// The point at `t`, in the axes of the ellipse.
proof fn lemma_sample_in_the_axes<S: Scalar>(arc: Arc<S>, t: S)
    requires
        scalar::exact::<S>(),
    ensures
        (arc.spec_sample(t) - arc.center).spec_rotate(-arc.x_rotation) == sample_in_the_axes(
            arc,
            arc.spec_get_angle(t),
        ),
{
    let angle = arc.spec_get_angle(t).radians;
    let (rx, ry) = (arc.radii.x.value(), arc.radii.y.value());
    let v = (arc.spec_sample(t) - arc.center).spec_rotate(-arc.x_rotation);
    let upright = sample_in_the_axes(arc, arc.spec_get_angle(t));
    lemma_turned_back(
        arc.x_rotation.radians,
        rx * angle.spec_cos().value(),
        ry * angle.spec_sin().value(),
    );
    assert(scalar::same_value(v.x, upright.x));
    assert(scalar::same_value(v.y, upright.y));
}

/// The tangent at a point of the curve follows the angle: in the axes of the ellipse, where the
/// point is `(rx * cos, ry * sin)`, it is `(-rx * sin, ry * cos)`. It touches the ellipse there:
/// it is at a right angle to the gradient of the equation of the ellipse. On a circle it is as
/// long as the radius, and at a right angle to it.
pub proof fn law_tangents_touch_the_ellipse<S: Scalar>(arc: Arc<S>, t: S)
    requires
        scalar::exact::<S>(),
    ensures
        ({
            let (rx, ry) = (arc.radii.x, arc.radii.y);
            let (radius, tangent) = (
                arc.spec_sample(t) - arc.center,
                arc.spec_tangent_at_angle(arc.spec_get_angle(t)),
            );
            let v = radius.spec_rotate(-arc.x_rotation);
            let w = tangent.spec_rotate(-arc.x_rotation);
            &&& v == sample_in_the_axes(arc, arc.spec_get_angle(t))
            &&& w == tangent_in_the_axes(arc, arc.spec_get_angle(t))
            &&& v.x * w.x * (ry * ry) + v.y * w.y * (rx * rx) == S::spec_zero()
            &&& rx == ry ==> tangent.spec_length() == rx.spec_abs()
            &&& rx == ry ==> radius.x * tangent.x + radius.y * tangent.y == S::spec_zero()
        }),
{
    let angle = arc.spec_get_angle(t).radians;
    let (rx, ry) = (arc.radii.x.value(), arc.radii.y.value());
    let (c, s) = (angle.spec_cos().value(), angle.spec_sin().value());
    let (p, q) = (rx * c, ry * s);
    let v = (arc.spec_sample(t) - arc.center).spec_rotate(-arc.x_rotation);
    let w = arc.spec_tangent_at_angle(arc.spec_get_angle(t)).spec_rotate(-arc.x_rotation);
    lemma_sample_in_the_axes(arc, t);
    lemma_tangent_in_the_axes(arc, t);

    let (xx, yy, cs) = (rx * rx, ry * ry, c * s);
    assert(-rx * s == -(rx * s)) by (nonlinear_arith);
    let rs = rx * s;
    assert(p * -rs == -(p * rs)) by (nonlinear_arith);
    reals::lemma_pair(rx, c, rx, s);
    reals::lemma_pair(ry, s, ry, c);
    assert(s * c == c * s) by (nonlinear_arith);
    assert(-(xx * cs) * yy + yy * cs * xx == 0real) by (nonlinear_arith);
    let (rx_s, ry_s) = (arc.radii.x, arc.radii.y);
    assert(scalar::same_value(
        v.x * w.x * (ry_s * ry_s) + v.y * w.y * (rx_s * rx_s),
        S::spec_zero(),
    ));
    if arc.radii.x == arc.radii.y {
        lemma_circle(arc, t);
    }
}

/// How far the point at `t + h` is from where the tangent at `t` leads to.
pub open spec fn deviation<S: Scalar>(arc: Arc<S>, t: S, h: S) -> Vector<S> {
    let step = arc.spec_sample(t + h) - arc.spec_sample(t);
    let tangent = arc.spec_tangent_at_angle(arc.spec_get_angle(t));
    let angle = arc.swept(h).radians;
    Vector { x: step.x - tangent.x * angle, y: step.y - tangent.y * angle }
}

/// The tangent is the derivative of the curve, per angle covered: a step along the curve is
/// the tangent times the angle that the step covers, up to an error that vanishes with the
/// square of that angle.
pub proof fn law_tangent_is_the_derivative<S: Scalar>(arc: Arc<S>, t: S, h: S)
    requires
        scalar::exact::<S>(),
    ensures
        deviation(arc, t, h).spec_length() <= arc.radii.spec_length() * (arc.swept(h).radians
            * arc.swept(h).radians),
{
    let (a, b) = (arc.spec_get_angle(t).radians, arc.spec_get_angle(t + h).radians);
    let d = arc.swept(h).radians;
    let phi = arc.x_rotation.radians;
    let (sweep, dv) = (arc.sweep_angle.radians.value(), d.value());
    reals::lemma_distribute(sweep, t.value(), h.value());
    assert(scalar::same_value(a + d, b));
    angles::lemma_sum_of_angles(a, d);
    angles::lemma_small_angle(d);

    let (c, s) = (a.spec_cos().value(), a.spec_sin().value());
    let (cd, sd) = (d.spec_cos().value(), d.spec_sin().value());
    let square = dv * dv;
    let half = square / 2real;
    let (k, l) = (b.spec_cos().value() - c + s * dv, b.spec_sin().value() - s - c * dv);
    reals::lemma_distribute(c, cd, 1real);
    reals::lemma_distribute(s, sd, dv);
    reals::lemma_distribute(s, cd, 1real);
    reals::lemma_distribute(c, sd, dv);
    assert(k == c * (cd - 1real) - s * (sd - dv));
    assert(-c * (sd - dv) == -(c * (sd - dv))) by (nonlinear_arith);
    assert(l == s * (cd - 1real) - -c * (sd - dv));
    assert(-c * -c == c * c) by (nonlinear_arith);
    reals::lemma_small_sum(c, s, cd - 1real, sd - dv, half);
    reals::lemma_small_sum(s, -c, cd - 1real, sd - dv, half);
    reals::lemma_square(half);
    reals::lemma_expand(half, half, half, half);
    assert(half + half == square);

    lemma_deviation(arc, t, h, k, l);
    let (rx, ry) = (arc.radii.x.value(), arc.radii.y.value());
    let (cos, sin) = (phi.spec_cos().value(), phi.spec_sin().value());
    reals::lemma_rotation_keeps_dot(rx * k, ry * l, rx * k, ry * l, cos, sin);
    reals::lemma_pair(rx, k, rx, k);
    reals::lemma_pair(ry, l, ry, l);
    let (xx, yy, bound) = (rx * rx, ry * ry, square * square);
    reals::lemma_square(rx);
    reals::lemma_square(ry);
    reals::lemma_scale(xx, k * k, bound);
    reals::lemma_scale(yy, l * l, bound);
    reals::lemma_distribute(bound, xx, yy);

    let e = deviation(arc, t, h);
    let (length, reach) = (e.spec_length().value(), arc.radii.spec_length().value());
    lengths::lemma_length(e);
    lengths::lemma_length(arc.radii);
    let most = reach * square;
    reals::lemma_square(dv);
    reals::lemma_nonnegative_product(reach, square);
    reals::lemma_pair(reach, square, reach, square);
    assert(length * length <= most * most);
    if length > most {
        reals::lemma_scale_order(most, length, length);
        reals::lemma_scale(most, most, length);
        assert(most * length == length * most) by (nonlinear_arith);
    }
}

/// The deviation, from that of the circle that the ellipse is drawn from.
proof fn lemma_deviation<S: Scalar>(arc: Arc<S>, t: S, h: S, k: real, l: real)
    requires
        scalar::exact::<S>(),
        ({
            let (a, b) = (arc.spec_get_angle(t).radians, arc.spec_get_angle(t + h).radians);
            let d = arc.swept(h).radians.value();
            &&& k == b.spec_cos().value() - a.spec_cos().value() + a.spec_sin().value() * d
            &&& l == b.spec_sin().value() - a.spec_sin().value() - a.spec_cos().value() * d
        }),
    ensures
        ({
            let phi = arc.x_rotation.radians;
            let (cos, sin) = (phi.spec_cos().value(), phi.spec_sin().value());
            let (rx, ry) = (arc.radii.x.value(), arc.radii.y.value());
            let e = deviation(arc, t, h);
            &&& e.x.value() == (rx * k) * cos - (ry * l) * sin
            &&& e.y.value() == (ry * l) * cos + (rx * k) * sin
        }),
{
    let (a, b) = (arc.spec_get_angle(t).radians, arc.spec_get_angle(t + h).radians);
    let d = arc.swept(h).radians.value();
    let phi = arc.x_rotation.radians;
    let (cos, sin) = (phi.spec_cos().value(), phi.spec_sin().value());
    let (rx, ry) = (arc.radii.x.value(), arc.radii.y.value());
    let (c, s) = (a.spec_cos().value(), a.spec_sin().value());
    let (c2, s2) = (b.spec_cos().value(), b.spec_sin().value());
    // rx * k and ry * l, term by term, turned.
    let (sd, cd) = (s * d, c * d);
    let (x1, x2, x3) = (rx * c, rx * c2, rx * sd);
    let (y1, y2, y3) = (ry * s, ry * s2, ry * cd);
    reals::lemma_distribute(rx, c2 - c, sd);
    reals::lemma_distribute(rx, c2, c);
    reals::lemma_distribute(ry, s2 - s, cd);
    reals::lemma_distribute(ry, s2, s);
    assert(rx * k == x2 - x1 + x3 && ry * l == y2 - y1 - y3);
    reals::lemma_distribute(cos, x2 - x1, x3);
    reals::lemma_distribute(cos, x2, x1);
    reals::lemma_distribute(sin, x2 - x1, x3);
    reals::lemma_distribute(sin, x2, x1);
    reals::lemma_distribute(cos, y2 - y1, y3);
    reals::lemma_distribute(cos, y2, y1);
    reals::lemma_distribute(sin, y2 - y1, y3);
    reals::lemma_distribute(sin, y2, y1);
    // The tangent times d.
    let (g, j) = (-rx * s, ry * c);
    assert(-rx * s * d == -(rx * (s * d))) by (nonlinear_arith);
    assert(ry * c * d == ry * (c * d)) by (nonlinear_arith);
    assert(g * d == -x3 && j * d == y3);
    reals::lemma_distribute(d, g * cos, j * sin);
    reals::lemma_distribute(d, j * cos, g * sin);
    assert(g * cos * d == g * d * cos && g * sin * d == g * d * sin) by (nonlinear_arith);
    assert(j * cos * d == j * d * cos && j * sin * d == j * d * sin) by (nonlinear_arith);
    assert(-x3 * cos == -(x3 * cos) && -x3 * sin == -(x3 * sin)) by (nonlinear_arith);
}

/// On a circle the tangent is as long as the radius, and at a right angle to it.
proof fn lemma_circle<S: Scalar>(arc: Arc<S>, t: S)
    requires
        scalar::exact::<S>(),
        arc.radii.x == arc.radii.y,
    ensures
        ({
            let radius = arc.spec_sample(t) - arc.center;
            let tangent = arc.spec_tangent_at_angle(arc.spec_get_angle(t));
            &&& tangent.spec_length() == arc.radii.x.spec_abs()
            &&& radius.x * tangent.x + radius.y * tangent.y == S::spec_zero()
        }),
{
    let angle = arc.spec_get_angle(t).radians;
    let phi = arc.x_rotation.radians;
    let r = arc.radii.x.value();
    let (c, s) = (angle.spec_cos().value(), angle.spec_sin().value());
    let (cos, sin) = (phi.spec_cos().value(), phi.spec_sin().value());
    let radius = arc.spec_sample(t) - arc.center;
    let tangent = arc.spec_tangent_at_angle(arc.spec_get_angle(t));
    let (p, q) = (r * c, r * s);
    assert(-r * s == -q) by (nonlinear_arith)
        requires
            q == r * s,
    ;
    reals::lemma_rotation_keeps_dot(-q, p, -q, p, cos, sin);
    reals::lemma_rotation_keeps_dot(p, q, -q, p, cos, sin);
    assert(-q * -q == q * q && p * -q == -(q * p)) by (nonlinear_arith);
    reals::lemma_pair(r, c, r, c);
    reals::lemma_pair(r, s, r, s);
    reals::lemma_distribute(r * r, s * s, c * c);
    let rr = r * r;
    assert(rr * 1real == rr);
    let (length, magnitude) = (tangent.spec_length().value(), arc.radii.x.spec_abs().value());
    lengths::lemma_length(tangent);
    assert(length * length == rr);
    assert(-r * -r == rr) by (nonlinear_arith)
        requires
            rr == r * r,
    ;
    assert(magnitude * magnitude == rr);
    reals::lemma_same_square(length, magnitude);
    assert(scalar::same_value(tangent.spec_length(), arc.radii.x.spec_abs()));
    assert(scalar::same_value(
        radius.x * tangent.x + radius.y * tangent.y,
        S::spec_zero(),
    ));
}

/// Turning by an angle and by the opposite angle gives a vector back.
proof fn lemma_turned_back<S: Scalar>(phi: S, x: real, y: real)
    requires
        scalar::exact::<S>(),
    ensures
        ({
            let (cos, sin) = (phi.spec_cos().value(), phi.spec_sin().value());
            let (back_cos, back_sin) = ((-phi).spec_cos().value(), (-phi).spec_sin().value());
            let (u, v) = (x * cos - y * sin, y * cos + x * sin);
            &&& u * back_cos - v * back_sin == x
            &&& v * back_cos + u * back_sin == y
        }),
{
    let (cos, sin) = (phi.spec_cos().value(), phi.spec_sin().value());
    let (u, v) = (x * cos - y * sin, y * cos + x * sin);
    angles::lemma_opposite_angle(phi);
    reals::lemma_turn_forth(x, y, cos, sin);
    assert(u * cos == cos * u && v * -sin == -(sin * v)) by (nonlinear_arith);
    assert(v * cos == cos * v && u * -sin == -sin * u) by (nonlinear_arith);
}

/// What it means to be a point of the arc: the point at `t` is that of the ellipse at the angle
/// which lies `t` times the sweep after the start. It is stretched by the radii, turned
/// and moved to the center, in this order, whether or not numbers round.
pub proof fn law_points_of_the_arc<S: Scalar>(arc: Arc<S>, t: S)
    ensures
        ({
            let angle = arc.start_angle.radians + arc.sweep_angle.radians * t;
            let (x, y) = (arc.radii.x * angle.spec_cos(), arc.radii.y * angle.spec_sin());
            let (cos, sin) = (arc.x_rotation.radians.spec_cos(), arc.x_rotation.radians.spec_sin());
            &&& arc.spec_get_angle(t).radians == angle
            &&& arc.spec_sample(t).x == arc.center.x + (x * cos - y * sin)
            &&& arc.spec_sample(t).y == arc.center.y + (y * cos + x * sin)
        }),
{
}

/// The arc starts at its point at 0 and ends at its point at 1.
pub proof fn law_ends_of_the_arc<S: Scalar>(arc: Arc<S>)
    ensures
        arc.spec_from() == arc.spec_sample(S::spec_zero()),
        arc.spec_to() == arc.spec_sample(S::spec_one()),
{
}

/// The tangent at an angle is a quarter of a turn ahead on the circle that the ellipse is drawn
/// from, stretched and turned as the points are, whether or not numbers round.
pub proof fn law_tangents_of_the_arc<S: Scalar>(arc: Arc<S>, angle: Angle<S>)
    ensures
        ({
            let a = angle.radians;
            let (x, y) = (-arc.radii.x * a.spec_sin(), arc.radii.y * a.spec_cos());
            let (cos, sin) = (arc.x_rotation.radians.spec_cos(), arc.x_rotation.radians.spec_sin());
            &&& arc.spec_tangent_at_angle(angle).x == x * cos - y * sin
            &&& arc.spec_tangent_at_angle(angle).y == y * cos + x * sin
        }),
{
}

/// Moving the center moves every point as far, and changes nothing else.
pub proof fn law_moved_arcs<S: Scalar>(arc: Arc<S>, v: Vector<S>, t: S)
    requires
        scalar::exact::<S>(),
    ensures
        ({
            let moved = Arc { center: arc.center + v, ..arc };
            &&& moved.spec_sample(t) == arc.spec_sample(t) + v
            &&& moved.spec_tangent_at_angle(moved.spec_get_angle(t)) == arc.spec_tangent_at_angle(
                arc.spec_get_angle(t),
            )
        }),
{
    let moved = Arc { center: arc.center + v, ..arc };
    assert(scalar::same_value(moved.spec_sample(t).x, (arc.spec_sample(t) + v).x));
    assert(scalar::same_value(moved.spec_sample(t).y, (arc.spec_sample(t) + v).y));
}

} // verus!
