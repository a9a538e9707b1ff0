//! Laws of converting between the two ways to give an arc.
use crate::arc;
use crate::laws::angles;
use crate::laws::ellipse_frame;
use crate::laws::reals;
use crate::math::{Angle, Point, Vector};
use crate::scalar;
use crate::scalar::Scalar;
use crate::svg_arc::SvgArc;
use crate::utils;
use vstd::prelude::*;

verus! {

/// A point of the ellipse, from the midpoint of the chord.
proof fn lemma_point<S: Scalar>(svg: SvgArc<S>, angle: Angle<S>, hx: real, hy: real)
    requires
        scalar::exact::<S>(),
        svg.spec_is_convertible(),
        svg.radii.x.value() * angle.radians.spec_cos().value() == hx
            - svg.local_center().x.value(),
        svg.radii.y.value() * angle.radians.spec_sin().value() == hy
            - svg.local_center().y.value(),
    ensures
        ({
            let p = svg.spec_center() + arc::spec_sample_ellipse(
                svg.radii,
                svg.x_rotation,
                angle,
            );
            let (cos, sin) = (
                svg.axis_angle().spec_cos().value(),
                svg.axis_angle().spec_sin().value(),
            );
            &&& p.x.value() == hx * cos - hy * sin + svg.midpoint().x.value()
            &&& p.y.value() == hy * cos + hx * sin + svg.midpoint().y.value()
        }),
{
    angles::lemma_remainder_of_turns(svg.x_rotation.radians);
    let (cos, sin) = (svg.axis_angle().spec_cos().value(), svg.axis_angle().spec_sin().value());
    let (cx, cy) = (svg.local_center().x.value(), svg.local_center().y.value());
    reals::lemma_distribute(cos, hx, cx);
    reals::lemma_distribute(sin, hx, cx);
    reals::lemma_distribute(cos, hy, cy);
    reals::lemma_distribute(sin, hy, cy);
    assert(cos * cx == cx * cos && sin * cx == cx * sin);
    assert(cos * cy == cy * cos && sin * cy == cy * sin);
}

/// The directions that the arc starts and ends in.
proof fn lemma_end_angles<S: Scalar>(svg: SvgArc<S>)
    requires
        scalar::exact::<S>(),
        svg.spec_is_convertible(),
        angles::is_nonzero(svg.start_direction()),
        angles::is_nonzero(svg.end_direction()),
    ensures
        ({
            let a = svg.spec_to_arc();
            let first = a.spec_get_angle(S::spec_zero()).radians;
            let last = a.spec_get_angle(S::spec_one()).radians;
            let (start, end) = (
                angles::heading(svg.start_direction()),
                angles::heading(svg.end_direction()),
            );
            &&& first.spec_cos() == start.spec_cos()
            &&& first.spec_sin() == start.spec_sin()
            &&& last.spec_cos() == end.spec_cos()
            &&& last.spec_sin() == end.spec_sin()
        }),
{
    let a = svg.spec_to_arc();
    let (start, end) = (svg.start_direction(), svg.end_direction());
    let (first, last) = (
        a.spec_get_angle(S::spec_zero()).radians,
        a.spec_get_angle(S::spec_one()).radians,
    );
    let x_axis = Vector { x: S::spec_one(), y: S::spec_zero() };
    let sweep = a.sweep_angle.radians.value();
    angles::lemma_heading_of_x_axis::<S>();
    let j = angles::lemma_directed_angle(x_axis, start);
    assert(sweep * 0real == 0real) by (nonlinear_arith);
    assert(scalar::turned_by(first, angles::heading(start), j));

    if svg.flags.sweep {
        let k = angles::lemma_directed_angle(start, end);
        angles::lemma_within_a_turn(utils::spec_directed_angle(start, end));
        reals::lemma_multiples(j, k, angles::turn::<S>());
        assert(scalar::turned_by(last, angles::heading(end), j + k));
    } else {
        let k = angles::lemma_directed_angle(end, start);
        angles::lemma_within_a_turn(utils::spec_directed_angle(end, start));
        reals::lemma_multiples(j, k, angles::turn::<S>());
        assert(scalar::turned_by(last, angles::heading(end), j - k));
    }
}

/// An arc given by its end points can be given by its center whenever the end points differ
/// and no radius is zero.
pub proof fn law_svg_arc_is_convertible<S: Scalar>(svg: SvgArc<S>)
    requires
        scalar::exact::<S>(),
    ensures
        svg.spec_is_convertible() <==> svg.from != svg.to && svg.radii.x != S::spec_zero()
            && svg.radii.y != S::spec_zero(),
{
    let zero = S::spec_zero();
    if svg.radii.x.value() == 0real {
        assert(scalar::same_value(svg.radii.x, zero));
    }
    if svg.radii.y.value() == 0real {
        assert(scalar::same_value(svg.radii.y, zero));
    }
    if svg.from.spec_equals(svg.to) {
        assert(scalar::same_value(svg.from.x, svg.to.x));
        assert(scalar::same_value(svg.from.y, svg.to.y));
    }
    if svg.radii.x != zero && svg.radii.y != zero && svg.chord_measure().value() == 0real {
        ellipse_frame::lemma_chord(svg);
        ellipse_frame::lemma_frame(svg);
        let (x, y) = (ellipse_frame::chord_x(svg), ellipse_frame::chord_y(svg));
        let r = svg.radii.x.value() * svg.radii.y.value();
        let n = ellipse_frame::chord_square(svg);
        if n != 0real {
            reals::lemma_nonzero_product(r * r, n);
        }
        reals::lemma_square(x);
        reals::lemma_square(y);
        let (rx, ry) = (svg.radii.x.value(), svg.radii.y.value());
        let (cos, sin) = (svg.axis_angle().spec_cos().value(), svg.axis_angle().spec_sin().value());
        assert(0real * rx == 0real && 0real * ry == 0real) by (nonlinear_arith);
        assert(0real * cos == 0real && 0real * sin == 0real) by (nonlinear_arith);
        let dx = (svg.from.x.value() - svg.to.x.value()) / 2real;
        let dy = (svg.from.y.value() - svg.to.y.value()) / 2real;
        reals::lemma_turn_back(dx, dy, cos, sin);
        assert(dx == 0real && dy == 0real);
        assert(svg.from.spec_equals(svg.to));
    }
}

/// An arc given by its end points starts and ends at them, if its ellipse is large
/// enough to reach from one to the other.
pub proof fn law_svg_arc_has_its_end_points<S: Scalar>(svg: SvgArc<S>)
    requires
        scalar::exact::<S>(),
        svg.spec_is_convertible(),
        svg.reaches(),
    ensures
        svg.spec_to_arc().spec_from() == svg.from,
        svg.spec_to_arc().spec_to() == svg.to,
{
    let a = svg.spec_to_arc();
    let (start, end) = (svg.start_direction(), svg.end_direction());
    let (first, last) = (a.spec_get_angle(S::spec_zero()), a.spec_get_angle(S::spec_one()));
    ellipse_frame::lemma_frame(svg);
    ellipse_frame::lemma_unit_directions(svg);
    angles::lemma_unit_heading(start);
    angles::lemma_unit_heading(end);
    lemma_end_angles(svg);

    let (x, y) = (ellipse_frame::chord_x(svg), ellipse_frame::chord_y(svg));
    let f = svg.center_factor().value();
    let (rx, ry) = (svg.radii.x.value(), svg.radii.y.value());
    let (hx, hy) = (svg.half_chord().x.value(), svg.half_chord().y.value());
    let (fx, fy) = (f * x, f * y);
    reals::lemma_distribute(rx, x, fy);
    reals::lemma_distribute(rx, -x, fy);
    reals::lemma_distribute(ry, y, fx);
    reals::lemma_distribute(ry, -y, fx);
    assert(rx * -x == -(x * rx) && ry * -y == -(y * ry)) by (nonlinear_arith);
    assert(rx * x == x * rx && ry * y == y * ry);
    assert(rx * fy == fy * rx && ry * fx == fx * ry);
    lemma_point(svg, first, hx, hy);
    lemma_point(svg, last, -hx, -hy);

    let (cos, sin) = (svg.axis_angle().spec_cos().value(), svg.axis_angle().spec_sin().value());
    let dx = (svg.from.x.value() - svg.to.x.value()) / 2real;
    let dy = (svg.from.y.value() - svg.to.y.value()) / 2real;
    reals::lemma_turn_back(dx, dy, cos, sin);
    assert(-hx * cos == -(hx * cos) && -hy * sin == -(hy * sin)) by (nonlinear_arith);
    assert(-hy * cos == -(hy * cos) && -hx * sin == -(hx * sin)) by (nonlinear_arith);
    assert(scalar::same_value(a.spec_from().x, svg.from.x));
    assert(scalar::same_value(a.spec_from().y, svg.from.y));
    assert(scalar::same_value(a.spec_to().x, svg.to.x));
    assert(scalar::same_value(a.spec_to().y, svg.to.y));
}

/// The angle between the directions that an arc starts and ends in, taken the way that the
/// arc runs, has a sine of the sign that the flags ask for.
proof fn lemma_sweep<S: Scalar>(svg: SvgArc<S>)
    requires
        scalar::exact::<S>(),
        svg.spec_is_convertible(),
    ensures
        ({
            let (start, end) = (svg.start_direction(), svg.end_direction());
            let d = if svg.flags.sweep {
                utils::spec_directed_angle(start, end)
            } else {
                utils::spec_directed_angle(end, start)
            };
            &&& 0real < d.value() < angles::turn::<S>()
            &&& svg.spec_sweep_angle().value() == if svg.flags.sweep {
                d.value()
            } else {
                -d.value()
            }
            &&& svg.flags.large_arc ==> d.spec_sin().value() <= 0real
            &&& !svg.flags.large_arc ==> d.spec_sin().value() >= 0real
            &&& d.spec_sin().value() == 0real <==> svg.is_half_turn()
        }),
{
    let (start, end) = (svg.start_direction(), svg.end_direction());
    ellipse_frame::lemma_nonzero_directions(svg);
    ellipse_frame::lemma_direction_squares(svg);
    ellipse_frame::lemma_cross_of_directions(svg);
    ellipse_frame::lemma_center_factor(svg);
    ellipse_frame::lemma_chord(svg);
    let (v1, v2) = if svg.flags.sweep {
        (start, end)
    } else {
        (end, start)
    };
    let d = utils::spec_directed_angle(v1, v2);
    let turns = angles::lemma_directed_angle(v1, v2);
    angles::lemma_directed_angle_is_not_zero(v1, v2);
    angles::lemma_within_a_turn(d);
    let dv = d.value();
    assert(-1real * dv == -dv) by (nonlinear_arith);

    let scale = angles::lemma_sine_of_directed_angle(v1, v2);
    let (f, n) = (svg.center_factor().value(), ellipse_frame::chord_square(svg));
    let (product, sine) = (f * n, d.spec_sin().value());
    assert(f >= 0real ==> product >= 0real) by (nonlinear_arith)
        requires
            product == f * n,
            n > 0real,
    ;
    assert(f <= 0real ==> product <= 0real) by (nonlinear_arith)
        requires
            product == f * n,
            n > 0real,
    ;
    let (x1, y1) = (start.x.value(), start.y.value());
    let (x2, y2) = (end.x.value(), end.y.value());
    assert(x2 * y1 == y1 * x2 && y2 * x1 == x1 * y2) by (nonlinear_arith);
    assert(scale * sine >= 0real ==> sine >= 0real) by (nonlinear_arith)
        requires
            scale > 0real,
    ;
    assert(scale * sine <= 0real ==> sine <= 0real) by (nonlinear_arith)
        requires
            scale > 0real,
    ;
    if f != 0real {
        reals::lemma_nonzero_product(f, n);
        assert(scale * 0real == 0real) by (nonlinear_arith);
    } else {
        assert(0real * n == 0real) by (nonlinear_arith);
    }
}

/// The flags mean what they say: `sweep` arcs run in the direction of growing angles, others
/// the other way, and `large_arc` arcs cover more than half a turn, others less. Where the
/// center is halfway between the end points, all of them cover exactly half a turn. None
/// covers nothing, or a full turn.
pub proof fn law_flags_choose_the_arc<S: Scalar>(svg: SvgArc<S>)
    requires
        scalar::exact::<S>(),
        svg.spec_is_convertible(),
    ensures
        ({
            let sweep = svg.spec_to_arc().sweep_angle.radians;
            &&& svg.flags.sweep ==> sweep > S::spec_zero()
            &&& !svg.flags.sweep ==> sweep < S::spec_zero()
            &&& svg.is_half_turn() <==> sweep.spec_abs() == S::spec_pi()
            &&& svg.flags.large_arc && !svg.is_half_turn() ==> sweep.spec_abs() > S::spec_pi()
            &&& !svg.flags.large_arc && !svg.is_half_turn() ==> sweep.spec_abs() < S::spec_pi()
            &&& sweep.spec_abs() < scalar::full_turn::<S>()
        }),
{
    lemma_sweep(svg);
    let (start, end) = (svg.start_direction(), svg.end_direction());
    let d = if svg.flags.sweep {
        utils::spec_directed_angle(start, end)
    } else {
        utils::spec_directed_angle(end, start)
    };
    angles::lemma_half_turn(d);
    let sweep = svg.spec_to_arc().sweep_angle.radians;
    if sweep.spec_abs().value() == S::spec_pi().value() {
        assert(scalar::same_value(sweep.spec_abs(), S::spec_pi()));
    }
}

/// Converting an arc that is given by its end points to one that is given by its center, and
/// back, gives the same arc. An arc of exactly half a turn comes back as a large one.
pub proof fn law_svg_round_trip<S: Scalar>(svg: SvgArc<S>)
    requires
        scalar::exact::<S>(),
        svg.spec_is_convertible(),
        svg.reaches(),
    ensures
        svg.spec_to_arc().spec_to_svg_arc() == svg.with_flags(
            svg.flags.large_arc || svg.is_half_turn(),
            svg.flags.sweep,
        ),
        svg.flags.large_arc || !svg.is_half_turn() ==> svg.spec_to_arc().spec_to_svg_arc() == svg,
{
    law_svg_arc_has_its_end_points(svg);
    law_flags_choose_the_arc(svg);
}

/// The four arcs between two points lie on two ellipses. Negating both flags keeps the center,
/// whether or not numbers round.
pub proof fn law_opposite_flags_keep_the_center<S: Scalar>(svg: SvgArc<S>)
    ensures
        svg.with_flags(!svg.flags.large_arc, !svg.flags.sweep).spec_center() == svg.spec_center(),
{
    let other = svg.with_flags(!svg.flags.large_arc, !svg.flags.sweep);
    assert(other.half_chord() == svg.half_chord());
    assert(other.center_factor() == svg.center_factor());
}

/// What the signs of the center factor and of the chord do to the center.
proof fn lemma_mirrored_center<S: Scalar>(svg: SvgArc<S>, other: SvgArc<S>, sign: real)
    requires
        scalar::exact::<S>(),
        svg.spec_is_convertible(),
        other.radii == svg.radii,
        other.x_rotation == svg.x_rotation,
        sign == 1real || sign == -1real,
        other.half_chord().x.value() == sign * svg.half_chord().x.value(),
        other.half_chord().y.value() == sign * svg.half_chord().y.value(),
        other.center_factor().value() == -svg.center_factor().value(),
    ensures
        other.local_center().x.value() == -sign * svg.local_center().x.value(),
        other.local_center().y.value() == -sign * svg.local_center().y.value(),
{
    ellipse_frame::lemma_frame(svg);
    ellipse_frame::lemma_frame(other);
    let (x, y) = (ellipse_frame::chord_x(svg), ellipse_frame::chord_y(svg));
    let (u, v) = (ellipse_frame::chord_x(other), ellipse_frame::chord_y(other));
    let (rx, ry, f) = (
        svg.radii.x.value(),
        svg.radii.y.value(),
        svg.center_factor().value(),
    );
    assert(sign * (x * rx) == (sign * x) * rx && sign * (y * ry) == (sign * y) * ry)
        by (nonlinear_arith);
    reals::lemma_cancel(u, rx);
    reals::lemma_cancel(sign * x, rx);
    reals::lemma_cancel(v, ry);
    reals::lemma_cancel(sign * y, ry);
    assert(u == sign * x && v == sign * y);
    let (lx, ly) = (svg.local_center().x.value(), svg.local_center().y.value());
    if sign == 1real {
        assert(sign * x == x && sign * y == y && -sign * lx == -lx && -sign * ly == -ly)
            by (nonlinear_arith)
            requires
                sign == 1real,
        ;
        assert(-f * x * ry == -(f * x * ry) && -f * y * rx == -(f * y * rx)) by (nonlinear_arith);
    } else {
        assert(sign * x == -x && sign * y == -y && -sign * lx == lx && -sign * ly == ly)
            by (nonlinear_arith)
            requires
                sign == -1real,
        ;
        assert(-f * -x * ry == f * x * ry && -f * -y * rx == f * y * rx) by (nonlinear_arith);
    }
}

/// Negating one flag mirrors the center in the midpoint between the end points.
pub proof fn law_one_flag_mirrors_the_center<S: Scalar>(svg: SvgArc<S>)
    requires
        scalar::exact::<S>(),
        svg.spec_is_convertible(),
    ensures
        ({
            let center = svg.spec_center();
            let other = svg.with_flags(!svg.flags.large_arc, svg.flags.sweep);
            let another = svg.with_flags(svg.flags.large_arc, !svg.flags.sweep);
            &&& other.spec_center() == another.spec_center()
            &&& center.x + other.spec_center().x == svg.from.x + svg.to.x
            &&& center.y + other.spec_center().y == svg.from.y + svg.to.y
        }),
{
    let other = svg.with_flags(!svg.flags.large_arc, svg.flags.sweep);
    let another = svg.with_flags(svg.flags.large_arc, !svg.flags.sweep);
    law_opposite_flags_keep_the_center(other);
    assert(other.with_flags(svg.flags.large_arc, !svg.flags.sweep) == another);
    lemma_opposite_factor(svg, other);
    lemma_mirrored_center(svg, other, 1real);
    let (cx, cy) = (svg.local_center().x.value(), svg.local_center().y.value());
    let (cos, sin) = (svg.axis_angle().spec_cos().value(), svg.axis_angle().spec_sin().value());
    assert(-1real * cx == -cx && -1real * cy == -cy) by (nonlinear_arith);
    assert(cos * -cx == -(cos * cx) && sin * -cx == -(sin * cx)) by (nonlinear_arith);
    assert(cos * -cy == -(cos * cy) && sin * -cy == -(sin * cy)) by (nonlinear_arith);
    let (center, mirrored) = (svg.spec_center(), other.spec_center());
    assert(scalar::same_value(center.x + mirrored.x, svg.from.x + svg.to.x));
    assert(scalar::same_value(center.y + mirrored.y, svg.from.y + svg.to.y));
}

/// Arcs with the same chord, one of whose flags differs, have opposite center factors.
proof fn lemma_opposite_factor<S: Scalar>(svg: SvgArc<S>, other: SvgArc<S>)
    requires
        scalar::exact::<S>(),
        other.radii == svg.radii,
        other.chord_measure() == svg.chord_measure(),
        (other.flags.large_arc == other.flags.sweep) != (svg.flags.large_arc == svg.flags.sweep),
    ensures
        other.center_factor().value() == -svg.center_factor().value(),
{
    let rr = svg.radii.x * svg.radii.y;
    let m = svg.chord_measure();
    let root = ((rr * rr - m) / m).spec_abs().spec_sqrt().value();
    assert(-1real * root == -root && 1real * root == root) by (nonlinear_arith);
}

/// The arc drawn backward, from its end to its start, is the reversed arc: it has the same
/// center and covers the same angle the other way, and starts where the arc ends, but for
/// full turns.
pub proof fn law_drawn_backward<S: Scalar>(svg: SvgArc<S>)
    requires
        scalar::exact::<S>(),
        svg.spec_is_convertible(),
    ensures
        svg.backward().spec_is_convertible(),
        svg.backward().spec_to_arc() == svg.spec_to_arc().spec_flip().with_angles(
            svg.backward().spec_to_arc().start_angle,
            svg.spec_to_arc().spec_flip().sweep_angle,
        ),
        exists|turns: int| #[trigger]
            scalar::turned_by(
                svg.backward().spec_to_arc().start_angle.radians,
                svg.spec_to_arc().spec_flip().start_angle.radians,
                turns,
            ),
{
    let other = svg.backward();
    lemma_backward_chord(svg);
    lemma_backward_directions(svg);
    lemma_sweep(svg);
    lemma_sweep(other);
    let (back, flipped) = (other.spec_to_arc(), svg.spec_to_arc().spec_flip());
    assert(scalar::same_value(back.sweep_angle.radians, flipped.sweep_angle.radians));
    let turns = lemma_backward_start(svg);
    assert(scalar::turned_by(back.start_angle.radians, flipped.start_angle.radians, turns));
}

/// The arc drawn backward has the same center, and its end points change places.
proof fn lemma_backward_directions<S: Scalar>(svg: SvgArc<S>)
    requires
        scalar::exact::<S>(),
        svg.spec_is_convertible(),
    ensures
        svg.backward().spec_center() == svg.spec_center(),
        svg.backward().start_direction() == svg.end_direction(),
        svg.backward().end_direction() == svg.start_direction(),
{
    let other = svg.backward();
    lemma_backward_chord(svg);
    lemma_opposite_factor(svg, other);
    lemma_mirrored_center(svg, other, -1real);
    let (cx, cy) = (svg.local_center().x.value(), svg.local_center().y.value());
    assert(-(-1real) * cx == cx && -(-1real) * cy == cy) by (nonlinear_arith);
    assert(scalar::same_value(other.local_center().x, svg.local_center().x));
    assert(scalar::same_value(other.local_center().y, svg.local_center().y));
    assert(scalar::same_value(other.midpoint().x, svg.midpoint().x));
    assert(scalar::same_value(other.midpoint().y, svg.midpoint().y));

    let (start, end) = (svg.start_direction(), svg.end_direction());
    assert(scalar::same_value(other.start_direction().x, end.x));
    assert(scalar::same_value(other.start_direction().y, end.y));
    assert(scalar::same_value(other.end_direction().x, start.x));
    assert(scalar::same_value(other.end_direction().y, start.y));
}

/// The arc drawn backward starts at the angle at which the arc ends, but for full turns.
proof fn lemma_backward_start<S: Scalar>(svg: SvgArc<S>) -> (turns: int)
    requires
        scalar::exact::<S>(),
        svg.spec_is_convertible(),
    ensures
        scalar::turned_by(
            svg.backward().spec_to_arc().start_angle.radians,
            svg.spec_to_arc().spec_flip().start_angle.radians,
            turns,
        ),
{
    let other = svg.backward();
    lemma_backward_chord(svg);
    lemma_backward_directions(svg);
    ellipse_frame::lemma_nonzero_directions(svg);
    lemma_end_angles(svg);
    lemma_end_angles(other);
    let (back, arc) = (other.spec_to_arc(), svg.spec_to_arc());
    let first = back.spec_get_angle(S::spec_zero()).radians;
    let last = arc.spec_get_angle(S::spec_one()).radians;
    let sweep = back.sweep_angle.radians.value();
    assert(sweep * 0real == 0real) by (nonlinear_arith);
    angles::lemma_same_direction(first, last)
}

/// The chord of the arc drawn backward.
proof fn lemma_backward_chord<S: Scalar>(svg: SvgArc<S>)
    requires
        scalar::exact::<S>(),
        svg.spec_is_convertible(),
    ensures
        svg.backward().half_chord().x.value() == -1real * svg.half_chord().x.value(),
        svg.backward().half_chord().y.value() == -1real * svg.half_chord().y.value(),
        svg.backward().chord_measure() == svg.chord_measure(),
        svg.backward().spec_is_convertible(),
{
    let other = svg.backward();
    let (cos, sin) = (svg.axis_angle().spec_cos().value(), svg.axis_angle().spec_sin().value());
    let x = (svg.from.x.value() - svg.to.x.value()) / 2real;
    let y = (svg.from.y.value() - svg.to.y.value()) / 2real;
    assert((svg.to.x.value() - svg.from.x.value()) / 2real == -x);
    assert((svg.to.y.value() - svg.from.y.value()) / 2real == -y);
    assert(cos * -x == -(cos * x) && sin * -y == -(sin * y)) by (nonlinear_arith);
    assert(-sin * -x == -(-sin * x) && cos * -y == -(cos * y)) by (nonlinear_arith);
    let (hx, hy) = (svg.half_chord().x.value(), svg.half_chord().y.value());
    assert(other.half_chord().x.value() == -hx && other.half_chord().y.value() == -hy);
    assert(-1real * hx == -hx && -1real * hy == -hy) by (nonlinear_arith);
    let (rx, ry) = (svg.radii.x.value(), svg.radii.y.value());
    let (u, v) = (rx * hy, ry * hx);
    assert(rx * -hy == -u && ry * -hx == -v) by (nonlinear_arith)
        requires
            u == rx * hy,
            v == ry * hx,
    ;
    assert(-u * -u == u * u && -v * -v == v * v) by (nonlinear_arith);
    assert(scalar::same_value(other.chord_measure(), svg.chord_measure()));
}

/// Half the chord on the circle that the ellipse of the arc is drawn from.
pub open spec fn chord_on_the_circle<S: Scalar>(svg: SvgArc<S>) -> (real, real) {
    let (cos, sin) = (
        svg.x_rotation.radians.spec_cos().value(),
        svg.x_rotation.radians.spec_sin().value(),
    );
    let x = (svg.from.x.value() - svg.to.x.value()) / 2real;
    let y = (svg.from.y.value() - svg.to.y.value()) / 2real;
    ((cos * x + sin * y) / svg.radii.x.value(), (cos * y - sin * x) / svg.radii.y.value())
}

/// The center, from the midpoint of the chord, on the circle that the ellipse is drawn from.
pub open spec fn center_on_the_circle<S: Scalar>(svg: SvgArc<S>, center: Point<S>) -> (real, real) {
    let (cos, sin) = (
        svg.x_rotation.radians.spec_cos().value(),
        svg.x_rotation.radians.spec_sin().value(),
    );
    let x = center.x.value() - (svg.from.x.value() + svg.to.x.value()) / 2real;
    let y = center.y.value() - (svg.from.y.value() + svg.to.y.value()) / 2real;
    ((cos * x + sin * y) / svg.radii.x.value(), (cos * y - sin * x) / svg.radii.y.value())
}

/// Both on the circle, from the numbers of the conversion.
proof fn lemma_on_the_circle<S: Scalar>(svg: SvgArc<S>)
    requires
        scalar::exact::<S>(),
        svg.spec_is_convertible(),
    ensures
        ({
            let (u, v) = (ellipse_frame::chord_x(svg), ellipse_frame::chord_y(svg));
            let f = svg.center_factor().value();
            &&& chord_on_the_circle(svg) == (u, v)
            &&& center_on_the_circle(svg, svg.spec_center()) == (f * v, -(f * u))
        }),
{
    angles::lemma_remainder_of_turns(svg.x_rotation.radians);
    ellipse_frame::lemma_frame(svg);
    let (cos, sin) = (
        svg.x_rotation.radians.spec_cos().value(),
        svg.x_rotation.radians.spec_sin().value(),
    );
    let (rx, ry) = (svg.radii.x.value(), svg.radii.y.value());
    let x = (svg.from.x.value() - svg.to.x.value()) / 2real;
    let y = (svg.from.y.value() - svg.to.y.value()) / 2real;
    assert(-sin * x == -(sin * x)) by (nonlinear_arith);
    assert(svg.half_chord().y.value() == cos * y - sin * x);
    let (u, v) = (ellipse_frame::chord_x(svg), ellipse_frame::chord_y(svg));
    let f = svg.center_factor().value();
    let (lx, ly) = (svg.local_center().x.value(), svg.local_center().y.value());
    let cx = svg.spec_center().x.value() - (svg.from.x.value() + svg.to.x.value()) / 2real;
    let cy = svg.spec_center().y.value() - (svg.from.y.value() + svg.to.y.value()) / 2real;
    assert(cos * lx == lx * cos && sin * lx == lx * sin) by (nonlinear_arith);
    assert(cos * ly == ly * cos && sin * ly == ly * sin) by (nonlinear_arith);
    assert(cx == lx * cos - ly * sin);
    assert(cy == ly * cos + lx * sin);
    reals::lemma_turn_forth(lx, ly, cos, sin);
    assert(-sin * cx == -(sin * cx)) by (nonlinear_arith);
    assert(cos * cx + sin * cy == lx && cos * cy - sin * cx == ly);
    reals::lemma_cancel(f * v, rx);
    assert(-(f * u * ry) == -(f * u) * ry) by (nonlinear_arith);
    reals::lemma_cancel(-(f * u), ry);
}

/// Where the center lies: on the circle that the ellipse is drawn from, it is off the midpoint of
/// the chord at a right angle, as far as it takes for a radius of one to reach the end points;
/// if none does, as far as one falls short, squared. The flags choose the side.
pub proof fn law_center_of_an_svg_arc<S: Scalar>(svg: SvgArc<S>)
    requires
        scalar::exact::<S>(),
        svg.from != svg.to,
        svg.radii.x != S::spec_zero(),
        svg.radii.y != S::spec_zero(),
    ensures
        ({
            let arc = svg.spec_to_arc();
            let (u, v) = chord_on_the_circle(svg);
            let (p, q) = center_on_the_circle(svg, arc.center);
            let n = u * u + v * v;
            &&& svg.spec_is_convertible()
            &&& arc.radii == svg.radii
            &&& arc.x_rotation == svg.x_rotation
            &&& p * u + q * v == 0real
            &&& n <= 1real ==> p * p + q * q == 1real - n
            &&& n >= 1real ==> p * p + q * q == n - 1real
            &&& svg.flags.large_arc == svg.flags.sweep ==> u * q - v * p >= 0real
            &&& svg.flags.large_arc != svg.flags.sweep ==> u * q - v * p <= 0real
            &&& svg.reaches() <==> n <= 1real
            &&& svg.is_half_turn() <==> n == 1real
        }),
{
    law_svg_arc_is_convertible(svg);
    lemma_on_the_circle(svg);
    ellipse_frame::lemma_chord(svg);
    ellipse_frame::lemma_center_factor(svg);
    let (u, v) = (ellipse_frame::chord_x(svg), ellipse_frame::chord_y(svg));
    let f = svg.center_factor().value();
    let (fu, fv) = (f * u, f * v);
    let n = u * u + v * v;
    assert(fv * u == f * (u * v) && -fu * v == -(f * (u * v))) by (nonlinear_arith)
        requires
            fv == f * v,
            fu == f * u,
    ;
    reals::lemma_pair(f, u, f, u);
    reals::lemma_pair(f, v, f, v);
    assert(-fu * -fu == fu * fu) by (nonlinear_arith);
    let ff = f * f;
    reals::lemma_distribute(ff, v * v, u * u);
    reals::lemma_distribute(n, 1real, ff);
    assert(ff * n == n * ff) by (nonlinear_arith);
    assert(u * -fu == -(f * (u * u)) && v * fv == f * (v * v)) by (nonlinear_arith)
        requires
            fv == f * v,
            fu == f * u,
    ;
    reals::lemma_distribute(f, u * u, v * v);
    let product = f * n;
    assert(f >= 0real ==> product >= 0real) by (nonlinear_arith)
        requires
            product == f * n,
            n > 0real,
    ;
    assert(f <= 0real ==> product <= 0real) by (nonlinear_arith)
        requires
            product == f * n,
            n > 0real,
    ;
}

/// A vector has the direction of its angle.
proof fn lemma_same_heading<S: Scalar>(v: Vector<S>, angle: S)
    requires
        scalar::exact::<S>(),
        angles::is_nonzero(v),
        angle.spec_cos() == angles::heading(v).spec_cos(),
        angle.spec_sin() == angles::heading(v).spec_sin(),
    ensures
        v.x.value() * angle.spec_sin().value() == v.y.value() * angle.spec_cos().value(),
        v.x.value() * angle.spec_cos().value() + v.y.value() * angle.spec_sin().value() > 0real,
{
    let l = angles::lemma_heading(v);
    let (c, s) = (angle.spec_cos().value(), angle.spec_sin().value());
    assert(l * c * s == l * s * c) by (nonlinear_arith);
    assert(l * c * c == l * (c * c) && l * s * s == l * (s * s)) by (nonlinear_arith);
    reals::lemma_distribute(l, s * s, c * c);
}

/// At which angles the arc starts and ends: those of its end points as seen from the center, on
/// the circle that the ellipse is drawn from. It starts within one turn of the x axis, and
/// runs the way that the `sweep` flag asks for, for less than a full turn.
pub proof fn law_angles_of_an_svg_arc<S: Scalar>(svg: SvgArc<S>)
    requires
        scalar::exact::<S>(),
        svg.from != svg.to,
        svg.radii.x != S::spec_zero(),
        svg.radii.y != S::spec_zero(),
    ensures
        ({
            let arc = svg.spec_to_arc();
            let (start, sweep) = (arc.start_angle.radians, arc.sweep_angle.radians);
            let end = start + sweep;
            let (u, v) = chord_on_the_circle(svg);
            let (p, q) = center_on_the_circle(svg, arc.center);
            let (x, y) = (u - p, v - q);
            let (z, w) = (-u - p, -v - q);
            &&& S::spec_zero() <= start && start < S::spec_two() * S::spec_pi()
            &&& x * start.spec_sin().value() == y * start.spec_cos().value()
            &&& x * start.spec_cos().value() + y * start.spec_sin().value() > 0real
            &&& z * end.spec_sin().value() == w * end.spec_cos().value()
            &&& z * end.spec_cos().value() + w * end.spec_sin().value() > 0real
            &&& svg.flags.sweep ==> S::spec_zero() < sweep && sweep < S::spec_two() * S::spec_pi()
            &&& !svg.flags.sweep ==> sweep < S::spec_zero() && -sweep < S::spec_two()
                * S::spec_pi()
        }),
{
    law_svg_arc_is_convertible(svg);
    law_flags_choose_the_arc(svg);
    lemma_on_the_circle(svg);
    ellipse_frame::lemma_frame(svg);
    ellipse_frame::lemma_nonzero_directions(svg);
    lemma_end_angles(svg);
    let arc = svg.spec_to_arc();
    let (start, sweep) = (arc.start_angle.radians, arc.sweep_angle.radians);
    let sv = sweep.value();
    assert(sv * 0real == 0real) by (nonlinear_arith);
    assert(scalar::same_value(arc.spec_get_angle(S::spec_zero()).radians, start));
    assert(scalar::same_value(arc.spec_get_angle(S::spec_one()).radians, start + sweep));
    let x_axis = Vector { x: S::spec_one(), y: S::spec_zero() };
    let turns = angles::lemma_directed_angle(x_axis, svg.start_direction());
    lemma_same_heading(svg.start_direction(), start);
    lemma_same_heading(svg.end_direction(), start + sweep);
}

/// What cannot be converted, whether or not numbers round: what is not a number, equal end points
/// and radii of zero.
pub proof fn law_what_cannot_be_converted<S: Scalar>(svg: SvgArc<S>)
    ensures
        svg.spec_is_convertible() ==> {
            &&& !svg.from.x.spec_is_nan() && !svg.from.y.spec_is_nan()
            &&& !svg.to.x.spec_is_nan() && !svg.to.y.spec_is_nan()
            &&& !svg.radii.x.spec_is_nan() && !svg.radii.y.spec_is_nan()
            &&& !svg.x_rotation.radians.spec_is_nan()
            &&& !(svg.from.x.spec_equals(svg.to.x) && svg.from.y.spec_equals(svg.to.y))
            &&& !svg.radii.x.spec_equals(S::spec_zero())
            &&& !svg.radii.y.spec_equals(S::spec_zero())
        },
{
}

/// A converted arc keeps its radii and its rotation, whether or not numbers round.
pub proof fn law_converted_arcs_keep_their_ellipse<S: Scalar>(svg: SvgArc<S>)
    ensures
        svg.spec_to_arc().radii == svg.radii,
        svg.spec_to_arc().x_rotation == svg.x_rotation,
{
}

/// The numbers of the conversion, whether or not they round: the center is found from the half
/// chord in the axes of the ellipse and from its midpoint, and the angles are those of both end
/// points as seen from there.
pub proof fn law_numbers_of_the_conversion<S: Scalar>(svg: SvgArc<S>)
    ensures
        ({
            let (one, two) = (S::spec_one(), S::spec_two());
            let full = two * S::spec_pi();
            let (rx, ry) = (svg.radii.x, svg.radii.y);
            let rotation = svg.x_rotation.radians.spec_rem(full);
            let (cos, sin) = (rotation.spec_cos(), rotation.spec_sin());
            let dx = (svg.from.x - svg.to.x) / two;
            let dy = (svg.from.y - svg.to.y) / two;
            let (x, y) = (cos * dx + sin * dy, -sin * dx + cos * dy);
            let (u, v) = (rx * y, ry * x);
            let measure = u * u + v * v;
            let sign = if svg.flags.large_arc == svg.flags.sweep {
                -one
            } else {
                one
            };
            let rr = rx * ry;
            let factor = sign * ((rr * rr - measure) / measure).spec_abs().spec_sqrt();
            let (cx, cy) = (factor * u / ry, -factor * v / rx);
            let start = Vector { x: (x - cx) / rx, y: (y - cy) / ry };
            let end = Vector { x: (-x - cx) / rx, y: (-y - cy) / ry };
            let axis = Vector { x: one, y: S::spec_zero() };
            let arc = svg.spec_to_arc();
            &&& arc.center.x == cos * cx - sin * cy + (svg.from.x + svg.to.x) / two
            &&& arc.center.y == sin * cx + cos * cy + (svg.from.y + svg.to.y) / two
            &&& arc.start_angle.radians == utils::spec_directed_angle(axis, start)
            &&& svg.flags.sweep ==> arc.sweep_angle.radians == one * utils::spec_directed_angle(
                start,
                end,
            ).spec_abs().spec_rem(full)
            &&& !svg.flags.sweep ==> arc.sweep_angle.radians == -one * utils::spec_directed_angle(
                end,
                start,
            ).spec_abs().spec_rem(full)
        }),
{
}

/// What can be converted, whether or not numbers round: an arc all of whose numbers are numbers,
/// whose end points differ, whose radii are not zero, and whose chord can be told from none.
pub proof fn law_what_can_be_converted<S: Scalar>(svg: SvgArc<S>)
    requires
        !svg.from.x.spec_is_nan() && !svg.from.y.spec_is_nan(),
        !svg.to.x.spec_is_nan() && !svg.to.y.spec_is_nan(),
        !svg.radii.x.spec_is_nan() && !svg.radii.y.spec_is_nan(),
        !svg.x_rotation.radians.spec_is_nan(),
        !(svg.from.x.spec_equals(svg.to.x) && svg.from.y.spec_equals(svg.to.y)),
        !svg.radii.x.spec_equals(S::spec_zero()),
        !svg.radii.y.spec_equals(S::spec_zero()),
    ensures
        ({
            let rotation = svg.x_rotation.radians.spec_rem(S::spec_two() * S::spec_pi());
            let (cos, sin) = (rotation.spec_cos(), rotation.spec_sin());
            let dx = (svg.from.x - svg.to.x) / S::spec_two();
            let dy = (svg.from.y - svg.to.y) / S::spec_two();
            let u = svg.radii.x * (-sin * dx + cos * dy);
            let v = svg.radii.y * (cos * dx + sin * dy);
            svg.spec_is_convertible() <==> !(u * u + v * v).spec_equals(S::spec_zero())
        }),
{
}

} // verus!
