//! Laws of bounding rectangles.
use crate::arc::Arc;
use crate::laws::angles;
use crate::laws::plane;
use crate::math::{Angle, Point, Rect, Size, Vector};
use crate::scalar;
use crate::scalar::Scalar;
use vstd::prelude::*;

verus! {

/// The least and the greatest of four numbers bound all of them.
proof fn lemma_extremes<S: Scalar>(a: S, b: S, c: S, d: S)
    requires
        scalar::exact::<S>(),
    ensures
        ({
            let low = scalar::spec_least(a, b, c, d).value();
            let high = scalar::spec_greatest(a, b, c, d).value();
            &&& low <= a.value() <= high
            &&& low <= b.value() <= high
            &&& low <= c.value() <= high
            &&& low <= d.value() <= high
        }),
{
}

/// A number that is scaled down comes no farther from zero.
proof fn lemma_scaled_down(u: real, p: real)
    requires
        -1real <= u <= 1real,
    ensures
        -p <= u * p <= p || p <= u * p <= -p,
{
    if p >= 0real {
        assert(-p <= u * p && u * p <= p) by (nonlinear_arith)
            requires
                -1real <= u <= 1real,
                p >= 0real,
        ;
    } else {
        assert(p <= u * p && u * p <= -p) by (nonlinear_arith)
            requires
                -1real <= u <= 1real,
                p < 0real,
        ;
    }
}

/// Sines and cosines lie between -1 and 1.
proof fn lemma_unit_range(x: real, y: real)
    requires
        x * x + y * y == 1real,
    ensures
        -1real <= x <= 1real,
        -1real <= y <= 1real,
{
    assert(-1real <= x <= 1real) by (nonlinear_arith)
        requires
            x * x + y * y == 1real,
    ;
    assert(-1real <= y <= 1real) by (nonlinear_arith)
        requires
            x * x + y * y == 1real,
    ;
}

/// The turned box around the origin holds the ellipse around the origin.
proof fn lemma_box_holds_ellipse<S: Scalar>(arc: Arc<S>, angle: Angle<S>)
    requires
        scalar::exact::<S>(),
    ensures
        ({
            let v = crate::arc::spec_sample_ellipse(arc.radii, arc.x_rotation, angle);
            let b = arc.upright_box().spec_rotate(arc.x_rotation);
            &&& b.origin.x.value() <= v.x.value() <= b.origin.x.value() + b.size.width.value()
            &&& b.origin.y.value() <= v.y.value() <= b.origin.y.value() + b.size.height.value()
        }),
{
    let (rx, ry) = (arc.radii.x.value(), arc.radii.y.value());
    let phi = arc.x_rotation.radians;
    let (c, s) = (phi.spec_cos().value(), phi.spec_sin().value());
    let (u, w) = (angle.radians.spec_cos().value(), angle.radians.spec_sin().value());
    lemma_unit_range(w, u);

    let upright = arc.upright_box();
    let (x0, x1) = (upright.spec_min_x(), upright.spec_max_x());
    let (y0, y1) = (upright.spec_min_y(), upright.spec_max_y());
    assert(x0.value() == -rx && x1.value() == rx);
    assert(y0.value() == -ry && y1.value() == ry);
    let p = Vector { x: x0, y: y0 }.spec_rotate(arc.x_rotation);
    let q = Vector { x: x1, y: y0 }.spec_rotate(arc.x_rotation);
    let r = Vector { x: x0, y: y1 }.spec_rotate(arc.x_rotation);
    let t = Vector { x: x1, y: y1 }.spec_rotate(arc.x_rotation);
    lemma_extremes(p.x, q.x, r.x, t.x);
    lemma_extremes(p.y, q.y, r.y, t.y);

    assert(-rx * c == -(rx * c) && -rx * s == -(rx * s)) by (nonlinear_arith);
    assert(-ry * c == -(ry * c) && -ry * s == -(ry * s)) by (nonlinear_arith);
    assert(rx * u * c == u * (rx * c) && rx * u * s == u * (rx * s)) by (nonlinear_arith);
    assert(ry * w * c == w * (ry * c) && ry * w * s == w * (ry * s)) by (nonlinear_arith);
    lemma_scaled_down(u, rx * c);
    lemma_scaled_down(w, ry * s);
    lemma_scaled_down(w, ry * c);
    lemma_scaled_down(u, rx * s);
}

/// The bounding rectangle contains the whole curve.
pub proof fn law_bounding_rect_contains_the_curve<S: Scalar>(arc: Arc<S>, t: S)
    requires
        scalar::exact::<S>(),
    ensures
        arc.spec_bounding_rect().covers(arc.spec_sample(t)),
{
    lemma_box_holds_ellipse(arc, arc.spec_get_angle(t));
}

/// The bounding rectangle is no larger than the turned box around the ellipse: its center is that
/// of the arc, and it reaches as far to each side as the turned radii do together.
pub proof fn law_bounding_rect_is_tight<S: Scalar>(arc: Arc<S>)
    requires
        scalar::exact::<S>(),
    ensures
        ({
            let r = arc.spec_bounding_rect();
            let (cos, sin) = (arc.x_rotation.radians.spec_cos(), arc.x_rotation.radians.spec_sin());
            let half_width = (arc.radii.x * cos).spec_abs() + (arc.radii.y * sin).spec_abs();
            let half_height = (arc.radii.x * sin).spec_abs() + (arc.radii.y * cos).spec_abs();
            &&& r.origin.x == arc.center.x - half_width
            &&& r.origin.x + r.size.width == arc.center.x + half_width
            &&& r.origin.y == arc.center.y - half_height
            &&& r.origin.y + r.size.height == arc.center.y + half_height
            &&& r.spec_min_x() == arc.center.x - half_width
            &&& r.spec_max_x() == arc.center.x + half_width
            &&& r.spec_min_y() == arc.center.y - half_height
            &&& r.spec_max_y() == arc.center.y + half_height
        }),
{
    let r = arc.spec_bounding_rect();
    let (rx, ry) = (arc.radii.x.value(), arc.radii.y.value());
    let phi = arc.x_rotation.radians;
    let (cos, sin) = (phi.spec_cos(), phi.spec_sin());
    let (c, s) = (cos.value(), sin.value());
    let upright = arc.upright_box();
    let (x0, x1) = (upright.spec_min_x(), upright.spec_max_x());
    let (y0, y1) = (upright.spec_min_y(), upright.spec_max_y());
    assert(x0.value() == -rx && x1.value() == rx);
    assert(y0.value() == -ry && y1.value() == ry);
    assert(-rx * c == -(rx * c) && -rx * s == -(rx * s)) by (nonlinear_arith);
    assert(-ry * c == -(ry * c) && -ry * s == -(ry * s)) by (nonlinear_arith);
    plane::law_turned_rectangle(upright, arc.x_rotation);
    let half_width = (arc.radii.x * cos).spec_abs() + (arc.radii.y * sin).spec_abs();
    let half_height = (arc.radii.x * sin).spec_abs() + (arc.radii.y * cos).spec_abs();
    let turned = upright.spec_rotate(arc.x_rotation);
    assert(turned.origin.x.value() == -half_width.value());
    assert(turned.origin.y.value() == -half_height.value());
    assert((turned.origin.x + turned.size.width).value() == half_width.value());
    assert((turned.origin.y + turned.size.height).value() == half_height.value());
    assert(scalar::same_value(r.origin.x, arc.center.x - half_width));
    assert(scalar::same_value(r.origin.y, arc.center.y - half_height));
    assert(scalar::same_value(r.origin.x + r.size.width, arc.center.x + half_width));
    assert(scalar::same_value(r.origin.y + r.size.height, arc.center.y + half_height));
}

/// The bounding rectangle of an ellipse that is not turned is twice as wide and as high as
/// its radii are long.
pub proof fn law_bounding_rect_of_an_upright_ellipse<S: Scalar>(arc: Arc<S>)
    requires
        scalar::exact::<S>(),
        arc.x_rotation.radians == S::spec_zero(),
    ensures
        arc.spec_bounding_rect().size.width == S::spec_two() * arc.radii.x.spec_abs(),
        arc.spec_bounding_rect().size.height == S::spec_two() * arc.radii.y.spec_abs(),
{
    law_bounding_rect_is_tight(arc);
    let r = arc.spec_bounding_rect();
    let phi = arc.x_rotation.radians;
    let (rx, ry) = (arc.radii.x.value(), arc.radii.y.value());
    angles::lemma_no_angle::<S>();
    assert(rx * 1real == rx && ry * 1real == ry && rx * 0real == 0real && ry * 0real == 0real)
        by (nonlinear_arith);
    assert(scalar::same_value(r.size.width, S::spec_two() * arc.radii.x.spec_abs()));
    assert(scalar::same_value(r.size.height, S::spec_two() * arc.radii.y.spec_abs()));
}

/// The bounding rectangle is that of the box around the ellipse: as wide and as high as its radii
/// both ways, turned about its center and then moved to that of the arc, whether or not
/// numbers round.
pub proof fn law_bounding_rect_is_a_turned_box<S: Scalar>(arc: Arc<S>)
    ensures
        ({
            let (zero, two) = (S::spec_zero(), S::spec_two());
            let upright = Rect {
                origin: Point { x: zero - arc.radii.x, y: zero - arc.radii.y },
                size: Size { width: arc.radii.x * two, height: arc.radii.y * two },
            };
            let turned = upright.spec_rotate(arc.x_rotation);
            let r = arc.spec_bounding_rect();
            &&& r.size == turned.size
            &&& r.origin.x == turned.origin.x + arc.center.x
            &&& r.origin.y == turned.origin.y + arc.center.y
        }),
{
}

} // verus!
