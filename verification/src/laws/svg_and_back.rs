//! The end points of an arc determine it.
use crate::arc::Arc;
use crate::laws::angles;
use crate::laws::ellipse_frame;
use crate::laws::reals;
use crate::laws::splitting;
use crate::math::Vector;
use crate::scalar;
use crate::scalar::Scalar;
use crate::utils;
use vstd::prelude::*;

verus! {

/// The arc covers something, but less than a full turn, of an ellipse that is not flat.
pub open spec fn is_proper<S: Scalar>(arc: Arc<S>) -> bool {
    &&& arc.radii.x != S::spec_zero()
    &&& arc.radii.y != S::spec_zero()
    &&& arc.sweep_angle.radians != S::spec_zero()
    &&& arc.sweep_angle.radians.spec_abs() < scalar::full_turn::<S>()
}

/// The angle at which the arc starts.
spec fn first<S: Scalar>(arc: Arc<S>) -> S {
    arc.spec_get_angle(S::spec_zero()).radians
}

/// The angle at which the arc ends.
spec fn last<S: Scalar>(arc: Arc<S>) -> S {
    arc.spec_get_angle(S::spec_one()).radians
}

/// Half the chord of the unit circle, x coordinate.
spec fn half_x<S: Scalar>(arc: Arc<S>) -> real {
    (first(arc).spec_cos().value() - last(arc).spec_cos().value()) / 2real
}

/// Half the chord of the unit circle, y coordinate.
spec fn half_y<S: Scalar>(arc: Arc<S>) -> real {
    (first(arc).spec_sin().value() - last(arc).spec_sin().value()) / 2real
}

/// The midpoint of the chord of the unit circle, x coordinate.
spec fn mid_x<S: Scalar>(arc: Arc<S>) -> real {
    (first(arc).spec_cos().value() + last(arc).spec_cos().value()) / 2real
}

/// The midpoint of the chord of the unit circle, y coordinate.
spec fn mid_y<S: Scalar>(arc: Arc<S>) -> real {
    (first(arc).spec_sin().value() + last(arc).spec_sin().value()) / 2real
}

/// What the numbers of a proper arc are.
proof fn lemma_proper<S: Scalar>(arc: Arc<S>)
    requires
        scalar::exact::<S>(),
        is_proper(arc),
    ensures
        arc.radii.x.value() != 0real,
        arc.radii.y.value() != 0real,
        arc.sweep_angle.radians.value() != 0real,
        first(arc).value() == arc.start_angle.radians.value(),
        last(arc).value() == first(arc).value() + arc.sweep_angle.radians.value(),
{
    let sweep = arc.sweep_angle.radians.value();
    assert(sweep * 0real == 0real) by (nonlinear_arith);
    if arc.radii.x.value() == 0real {
        assert(scalar::same_value(arc.radii.x, S::spec_zero()));
    }
    if arc.radii.y.value() == 0real {
        assert(scalar::same_value(arc.radii.y, S::spec_zero()));
    }
    if sweep == 0real {
        assert(scalar::same_value(arc.sweep_angle.radians, S::spec_zero()));
    }
}

/// The chord of the unit circle, with a right angle at its midpoint.
proof fn lemma_unit_chord<S: Scalar>(arc: Arc<S>)
    requires
        scalar::exact::<S>(),
    ensures
        ({
            let (x, y, mx, my) = (half_x(arc), half_y(arc), mid_x(arc), mid_y(arc));
            &&& x * mx + y * my == 0real
            &&& x * x + y * y + (mx * mx + my * my) == 1real
            &&& first(arc).spec_cos().value() == mx + x
            &&& first(arc).spec_sin().value() == my + y
            &&& last(arc).spec_cos().value() == mx - x
            &&& last(arc).spec_sin().value() == my - y
            &&& 2real * (x * my - y * mx) == (last(arc) - first(arc)).spec_sin().value()
        }),
{
    let (x, y, mx, my) = (half_x(arc), half_y(arc), mid_x(arc), mid_y(arc));
    let (c1, s1) = (first(arc).spec_cos().value(), first(arc).spec_sin().value());
    let (c2, s2) = (last(arc).spec_cos().value(), last(arc).spec_sin().value());
    assert(c1 == mx + x && s1 == my + y && c2 == mx - x && s2 == my - y);
    assert(s1 * s1 + c1 * c1 == 1real && s2 * s2 + c2 * c2 == 1real);
    reals::lemma_half_sums(x, y, mx, my);
    assert(s2 * c1 - c2 * s1 == c1 * s2 - s1 * c2) by (nonlinear_arith);
    assert((last(arc) - first(arc)).spec_sin().value() == s2 * c1 - c2 * s1);
}

/// The end points of the arc are those of the chord of the unit circle, stretched and turned.
proof fn lemma_svg_chord<S: Scalar>(arc: Arc<S>)
    requires
        scalar::exact::<S>(),
        is_proper(arc),
    ensures
        ({
            let svg = arc.spec_to_svg_arc();
            let (rx, ry) = (arc.radii.x.value(), arc.radii.y.value());
            let phi = arc.x_rotation.radians;
            let (cos, sin) = (phi.spec_cos().value(), phi.spec_sin().value());
            &&& svg.axis_angle().spec_cos() == phi.spec_cos()
            &&& svg.axis_angle().spec_sin() == phi.spec_sin()
            &&& svg.half_chord().x.value() == rx * half_x(arc)
            &&& svg.half_chord().y.value() == ry * half_y(arc)
            &&& svg.midpoint().x.value() == arc.center.x.value() + (rx * mid_x(arc) * cos - ry
                * mid_y(arc) * sin)
            &&& svg.midpoint().y.value() == arc.center.y.value() + (ry * mid_y(arc) * cos + rx
                * mid_x(arc) * sin)
        }),
{
    let svg = arc.spec_to_svg_arc();
    let phi = arc.x_rotation.radians;
    angles::lemma_remainder_of_turns(phi);
    lemma_unit_chord(arc);
    let (rx, ry) = (arc.radii.x.value(), arc.radii.y.value());
    let (cos, sin) = (phi.spec_cos().value(), phi.spec_sin().value());
    let (x, y, mx, my) = (half_x(arc), half_y(arc), mid_x(arc), mid_y(arc));
    reals::lemma_distribute(rx, mx, x);
    reals::lemma_distribute(ry, my, y);
    reals::lemma_distribute(cos, rx * mx, rx * x);
    reals::lemma_distribute(sin, rx * mx, rx * x);
    reals::lemma_distribute(cos, ry * my, ry * y);
    reals::lemma_distribute(sin, ry * my, ry * y);
    let (p, r) = (rx * x, ry * y);
    let (dx, dy) = (p * cos - r * sin, r * cos + p * sin);
    assert((svg.from.x.value() - svg.to.x.value()) / 2real == dx);
    assert((svg.from.y.value() - svg.to.y.value()) / 2real == dy);
    reals::lemma_turn_forth(p, r, cos, sin);
}

/// The arc can be given by its end points.
proof fn lemma_svg_is_convertible<S: Scalar>(arc: Arc<S>)
    requires
        scalar::exact::<S>(),
        is_proper(arc),
    ensures
        ({
            let svg = arc.spec_to_svg_arc();
            &&& svg.spec_is_convertible()
            &&& svg.reaches()
            &&& ellipse_frame::chord_x(svg) == half_x(arc)
            &&& ellipse_frame::chord_y(svg) == half_y(arc)
        }),
{
    let svg = arc.spec_to_svg_arc();
    lemma_proper(arc);
    lemma_svg_chord(arc);
    lemma_unit_chord(arc);
    let (rx, ry) = (arc.radii.x.value(), arc.radii.y.value());
    let (x, y, mx, my) = (half_x(arc), half_y(arc), mid_x(arc), mid_y(arc));
    reals::lemma_cancel(x, rx);
    reals::lemma_cancel(y, ry);
    ellipse_frame::lemma_chord(svg);
    reals::lemma_square(x);
    reals::lemma_square(y);
    reals::lemma_square(mx);
    reals::lemma_square(my);
    let n = x * x + y * y;
    if n == 0real {
        assert(scalar::same_value(first(arc).spec_cos(), last(arc).spec_cos()));
        assert(scalar::same_value(first(arc).spec_sin(), last(arc).spec_sin()));
        let k = angles::lemma_same_direction(last(arc), first(arc));
        reals::lemma_multiples(0, k, angles::turn::<S>());
        reals::lemma_one_multiple(angles::turn::<S>());
        assert(false);
    }
    let r = rx * ry;
    let rr = r * r;
    reals::lemma_nonzero_product(rr, n);
    assert(rr * n <= rr) by (nonlinear_arith)
        requires
            rr > 0real,
            n <= 1real,
    ;
    if svg.from.spec_equals(svg.to) {
        let (cos, sin) = (
            svg.axis_angle().spec_cos().value(),
            svg.axis_angle().spec_sin().value(),
        );
        assert(cos * 0real == 0real && sin * 0real == 0real && -sin * 0real == 0real)
            by (nonlinear_arith);
        assert(svg.half_chord().x.value() == 0real && svg.half_chord().y.value() == 0real);
        assert(0real / rx == 0real && 0real / ry == 0real) by (nonlinear_arith)
            requires
                rx != 0real,
                ry != 0real,
        ;
        assert(0real * 0real == 0real);
    }
}

/// The sine of the sweep has the sign that goes with the flags.
proof fn lemma_side<S: Scalar>(arc: Arc<S>)
    requires
        scalar::exact::<S>(),
        is_proper(arc),
    ensures
        ({
            let flags = arc.spec_to_svg_arc().flags;
            let sine = (last(arc) - first(arc)).spec_sin().value();
            &&& flags.large_arc == flags.sweep ==> sine <= 0real
            &&& flags.large_arc != flags.sweep ==> sine >= 0real
        }),
{
    lemma_proper(arc);
    let sweep = arc.sweep_angle.radians;
    let (forth, back) = (last(arc) - first(arc), first(arc) - last(arc));
    let (c1, s1) = (first(arc).spec_cos().value(), first(arc).spec_sin().value());
    let (c2, s2) = (last(arc).spec_cos().value(), last(arc).spec_sin().value());
    assert(forth.spec_sin().value() == s2 * c1 - c2 * s1);
    assert(back.spec_sin().value() == s1 * c2 - c1 * s2);
    assert(s2 * c1 - c2 * s1 == -(s1 * c2 - c1 * s2)) by (nonlinear_arith);
    let d = if sweep.value() > 0real {
        forth
    } else {
        back
    };
    angles::lemma_half_turn(d);
}

/// The directions of the end points are those that the arc has.
proof fn lemma_directions<S: Scalar>(arc: Arc<S>)
    requires
        scalar::exact::<S>(),
        is_proper(arc),
    ensures
        ({
            let svg = arc.spec_to_svg_arc();
            let f = svg.center_factor().value();
            &&& f * half_x(arc) == mid_y(arc)
            &&& f * half_y(arc) == -mid_x(arc)
            &&& svg.start_direction() == Vector {
                x: first(arc).spec_cos(),
                y: first(arc).spec_sin(),
            }
            &&& svg.end_direction() == Vector { x: last(arc).spec_cos(), y: last(arc).spec_sin() }
        }),
{
    let svg = arc.spec_to_svg_arc();
    lemma_proper(arc);
    lemma_svg_is_convertible(arc);
    lemma_unit_chord(arc);
    lemma_side(arc);
    ellipse_frame::lemma_chord(svg);
    ellipse_frame::lemma_center_factor(svg);
    ellipse_frame::lemma_frame(svg);
    let (x, y, mx, my) = (half_x(arc), half_y(arc), mid_x(arc), mid_y(arc));
    let f = svg.center_factor().value();
    let n = x * x + y * y;
    let mm = mx * mx + my * my;
    let q = x * my - y * mx;
    let (ff, product) = (f * f, f * n);

    // Both f * n and q have the square n * mm, and the same sign.
    reals::lemma_distribute(n, 1real, ff);
    assert(n * ff == mm);
    assert(product * product == n * (n * ff)) by (nonlinear_arith)
        requires
            product == f * n,
            ff == f * f,
    ;
    reals::lemma_lagrange(x, y, mx, my);
    assert(0real * 0real == 0real);
    assert(q * q == n * mm);
    assert(f >= 0real ==> product >= 0real) by (nonlinear_arith)
        requires
            product == f * n,
            n > 0real,
    ;
    assert(f <= 0real ==> product <= 0real) by (nonlinear_arith)
        requires
            product == f * n,
            n > 0real,
    ;
    reals::lemma_same_square(product, q);
    reals::lemma_right_angle(x, y, mx, my, f);

    let (start, end) = (svg.start_direction(), svg.end_direction());
    assert(scalar::same_value(start.x, first(arc).spec_cos()));
    assert(scalar::same_value(start.y, first(arc).spec_sin()));
    assert(scalar::same_value(end.x, last(arc).spec_cos()));
    assert(scalar::same_value(end.y, last(arc).spec_sin()));
}

/// The center is found again.
proof fn lemma_center<S: Scalar>(arc: Arc<S>)
    requires
        scalar::exact::<S>(),
        is_proper(arc),
    ensures
        arc.spec_to_svg_arc().spec_center() == arc.center,
{
    let svg = arc.spec_to_svg_arc();
    lemma_proper(arc);
    lemma_svg_is_convertible(arc);
    lemma_svg_chord(arc);
    lemma_directions(arc);
    ellipse_frame::lemma_frame(svg);
    let (rx, ry) = (arc.radii.x.value(), arc.radii.y.value());
    let (mx, my) = (mid_x(arc), mid_y(arc));
    let (cos, sin) = (svg.axis_angle().spec_cos().value(), svg.axis_angle().spec_sin().value());
    let (p, r) = (rx * mx, ry * my);
    assert(-mx * rx == -(rx * mx) && my * ry == ry * my) by (nonlinear_arith);
    assert(svg.local_center().x.value() == -p && svg.local_center().y.value() == -r);
    assert(cos * -p == -(p * cos) && sin * -p == -(p * sin)) by (nonlinear_arith);
    assert(cos * -r == -(r * cos) && sin * -r == -(r * sin)) by (nonlinear_arith);
    assert(scalar::same_value(svg.spec_center().x, arc.center.x));
    assert(scalar::same_value(svg.spec_center().y, arc.center.y));
}

/// Converting an arc that is given by its center to one that is given by its end points,
/// and back, gives the same arc, but for full turns in the angle at which it starts.
pub proof fn law_arc_round_trip<S: Scalar>(arc: Arc<S>)
    requires
        scalar::exact::<S>(),
        is_proper(arc),
    ensures
        arc.spec_to_svg_arc().spec_is_convertible(),
        ({
            let back = arc.spec_to_svg_arc().spec_to_arc();
            &&& back == arc.with_angles(back.start_angle, arc.sweep_angle)
            &&& exists|turns: int| #[trigger]
                scalar::turned_by(back.start_angle.radians, arc.start_angle.radians, turns)
        }),
{
    let svg = arc.spec_to_svg_arc();
    let back = svg.spec_to_arc();
    lemma_proper(arc);
    lemma_svg_is_convertible(arc);
    lemma_center(arc);
    lemma_directions(arc);
    let (start, end) = (svg.start_direction(), svg.end_direction());
    let turn = angles::turn::<S>();
    ellipse_frame::lemma_unit_directions(svg);
    angles::lemma_unit_heading(start);
    angles::lemma_unit_heading(end);
    let j1 = angles::lemma_same_direction(angles::heading(start), first(arc));
    let j2 = angles::lemma_same_direction(angles::heading(end), last(arc));

    let x_axis = Vector { x: S::spec_one(), y: S::spec_zero() };
    angles::lemma_heading_of_x_axis::<S>();
    let k = angles::lemma_directed_angle(x_axis, start);
    reals::lemma_multiples(k, j1, turn);
    assert(scalar::turned_by(back.start_angle.radians, arc.start_angle.radians, k + j1));

    reals::lemma_one_multiple(turn);
    let sweep = arc.sweep_angle.radians;
    if svg.flags.sweep {
        let d = utils::spec_directed_angle(start, end);
        let i = angles::lemma_directed_angle(start, end);
        angles::lemma_within_a_turn(d);
        reals::lemma_multiples(i, j2, turn);
        reals::lemma_multiples(i + j2, j1, turn);
        reals::lemma_multiples(0, i + j2 - j1, turn);
        assert(d.value() == sweep.value() + scalar::multiple(i + j2 - j1, turn));
        assert(scalar::same_value(back.sweep_angle.radians, sweep));
    } else {
        let d = utils::spec_directed_angle(end, start);
        let i = angles::lemma_directed_angle(end, start);
        angles::lemma_within_a_turn(d);
        reals::lemma_multiples(i, j1, turn);
        reals::lemma_multiples(i + j1, j2, turn);
        reals::lemma_multiples(0, i + j1 - j2, turn);
        assert(d.value() == -sweep.value() + scalar::multiple(i + j1 - j2, turn));
        let dv = d.value();
        assert(-1real * dv == -dv) by (nonlinear_arith);
        assert(scalar::same_value(back.sweep_angle.radians, sweep));
    }
}

/// An arc that is given by its end points keeps the ends, the radii and the rotation of the arc,
/// whatever it covers and whether or not numbers round. It is large if it covers half a turn
/// or more either way, and its `sweep` flag is set unless the angle is below zero.
pub proof fn law_arc_by_its_end_points<S: Scalar>(arc: Arc<S>)
    ensures
        ({
            let svg = arc.spec_to_svg_arc();
            &&& svg.from == arc.spec_sample(S::spec_zero())
            &&& svg.to == arc.spec_sample(S::spec_one())
            &&& svg.radii == arc.radii
            &&& svg.x_rotation == arc.x_rotation
            &&& svg.flags.large_arc <==> arc.sweep_angle.radians.spec_abs() >= S::spec_pi()
            &&& svg.flags.sweep <==> arc.sweep_angle.radians >= S::spec_zero()
        }),
{
}

/// The reversed arc has its end points exchanged and the opposite `sweep` flag, and is as large.
pub proof fn law_reversed_arc_by_its_end_points<S: Scalar>(arc: Arc<S>)
    requires
        scalar::exact::<S>(),
        arc.sweep_angle.radians != S::spec_zero(),
    ensures
        ({
            let (forth, back) = (arc.spec_to_svg_arc(), arc.spec_flip().spec_to_svg_arc());
            &&& back.from == forth.to
            &&& back.to == forth.from
            &&& back.radii == forth.radii
            &&& back.x_rotation == forth.x_rotation
            &&& back.flags.large_arc == forth.flags.large_arc
            &&& back.flags.sweep == !forth.flags.sweep
        }),
{
    splitting::law_flip_samples(arc, S::spec_zero());
    if arc.sweep_angle.radians.value() == 0real {
        assert(scalar::same_value(arc.sweep_angle.radians, S::spec_zero()));
    }
}

} // verus!
