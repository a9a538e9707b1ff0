//! Laws of approximating arcs by quadratic Bezier curves.
use crate::arc::Arc;
use crate::laws::ellipse;
use crate::laws::lines;
use crate::laws::reals;
use crate::math::Angle;
use crate::quadratic_bezier::QuadraticBezierSegment;
use crate::scalar;
use crate::scalar::Scalar;
use vstd::prelude::*;

verus! {

/// Each curve starts where the one before it ends.
pub proof fn law_quadratics_are_joined<S: Scalar>(arc: Arc<S>, i: int)
    requires
        0 <= i < arc.spec_quadratics().len() - 1,
    ensures
        arc.spec_quadratics()[i].to == arc.spec_quadratics()[i + 1].from,
{
}

/// The sweep to approximate is positive, unless the arc is a point, and at most a full turn.
proof fn lemma_bounded_sweep<S: Scalar>(arc: Arc<S>)
    requires
        scalar::exact::<S>(),
    ensures
        arc.bounded_sweep().value() <= 2real * S::spec_pi().value(),
        arc.bounded_sweep().value() >= 0real,
        arc.bounded_sweep().value() == 0real <==> arc.sweep_angle.radians.value() == 0real,
{
    let p = S::spec_pi().value();
    assert(p * 2real == 2real * p);
}

/// There are at most eight steps, each of at most an eighth of a turn.
proof fn lemma_step_count<S: Scalar>(arc: Arc<S>)
    requires
        scalar::exact::<S>(),
    ensures
        ({
            let (b, c) = (arc.bounded_sweep().value(), arc.step_count());
            let eighth = S::spec_frac_pi_4().value();
            let n = c.value().floor();
            &&& c.value() == n as real
            &&& 0 <= n <= 8
            &&& c.spec_to_i32() == Some(n as i32)
            &&& (n - 1) as real * eighth < b
            &&& b <= n as real * eighth
            &&& n == 0 <==> b == 0real
        }),
{
    lemma_bounded_sweep(arc);
    let b = arc.bounded_sweep().value();
    let eighth = S::spec_frac_pi_4().value();
    let p = S::spec_pi().value();
    assert(eighth > 0real);
    let q = b / eighth;
    reals::lemma_quotient(b, eighth);
    let c = arc.step_count().value();
    assert((arc.bounded_sweep() / S::spec_frac_pi_4()).value() == q);
    assert(scalar::ceiling(q, c));
    let n = c.floor();
    if q > 8real {
        reals::lemma_scale_order(8real, q, eighth);
        assert(8real * eighth == 2real * p);
    }
    if q < 0real {
        reals::lemma_scale_order(q, 0real, eighth);
        assert(0real * eighth == 0real) by (nonlinear_arith);
    }
    assert(0 <= n <= 8);
    reals::lemma_scale_order((n - 1) as real, q, eighth);
    if q < n as real {
        reals::lemma_scale_order(q, n as real, eighth);
    }
    assert(q == 0real ==> b == 0real) by {
        assert(0real * eighth == 0real) by (nonlinear_arith);
    }
    if b == 0real && q != 0real {
        reals::lemma_scale_order(0real, q, eighth);
        assert(0real * eighth == 0real) by (nonlinear_arith);
    }
}

/// An arc is cut into as few curves as it takes for none to cover more than an eighth of a
/// turn: at most eight, and none for an arc that is a point. An arc that covers more than a
/// full turn takes as many as one that covers a full turn.
pub proof fn law_quadratic_count<S: Scalar>(arc: Arc<S>)
    requires
        scalar::exact::<S>(),
    ensures
        ({
            let n = arc.spec_quadratics().len();
            let (sweep, half_turn) = (arc.sweep_angle.radians.value(), S::spec_pi().value());
            let magnitude = if sweep < 0real {
                -sweep
            } else {
                sweep
            };
            let covered = if magnitude < 2real * half_turn {
                magnitude
            } else {
                2real * half_turn
            };
            let eighth = half_turn / 4real;
            &&& covered == arc.bounded_sweep().value()
            &&& eighth == S::spec_frac_pi_4().value()
            &&& n <= 8
            &&& (n - 1) as real * eighth < covered
            &&& covered <= n as real * eighth
            &&& n == 0 <==> arc.sweep_angle.radians == S::spec_zero()
        }),
{
    lemma_bounded_sweep(arc);
    lemma_step_count(arc);
    let p = S::spec_pi().value();
    assert(p * 2real == 2real * p);
    if arc.sweep_angle.radians.value() == 0real {
        assert(scalar::same_value(arc.sweep_angle.radians, S::spec_zero()));
    }
}

/// The curves run from the start of the arc to its end, or once around the ellipse
/// if the arc covers more than a full turn.
pub proof fn law_quadratics_run_along_the_arc<S: Scalar>(arc: Arc<S>)
    requires
        scalar::exact::<S>(),
        arc.sweep_angle.radians != S::spec_zero(),
    ensures
        arc.spec_quadratics().len() > 0,
        arc.spec_quadratics().first().from == arc.spec_from(),
        arc.sweep_angle.radians.spec_abs() <= scalar::full_turn::<S>()
            ==> arc.spec_quadratics().last().to == arc.spec_to(),
        arc.sweep_angle.radians.spec_abs() > scalar::full_turn::<S>()
            ==> arc.spec_quadratics().last().to == arc.spec_from(),
{
    let s = arc.sweep_angle.radians;
    if s.value() == 0real {
        assert(scalar::same_value(s, S::spec_zero()));
    }
    lemma_bounded_sweep(arc);
    lemma_step_count(arc);
    let n = arc.step_count().value().floor();
    let step = arc.step_angle().radians.value();
    let (b, sign) = (arc.bounded_sweep().value(), s.spec_signum().value());
    let last = arc.joint(n);
    assert(arc.spec_quadratics().last().to == arc.point_at(last));

    assert(step * 0real == 0real && s.value() * 0real == 0real) by (nonlinear_arith);
    assert(scalar::same_value(
        arc.joint(0).radians,
        arc.spec_get_angle(S::spec_zero()).radians,
    ));

    reals::lemma_quotient(b, n as real);
    assert(step == b / n as real * sign);
    assert(step * n as real == b * sign) by (nonlinear_arith)
        requires
            step == b / n as real * sign,
            b / n as real * n as real == b,
    {
        assert(b / n as real * sign * n as real == b / n as real * n as real * sign);
    }
    assert(last.radians.value() == arc.start_angle.radians.value() + b * sign);
    assert(b * 1real == b && b * -1real == -b) by (nonlinear_arith);
    if s.spec_abs() <= scalar::full_turn::<S>() {
        assert(scalar::same_value(last.radians, arc.spec_get_angle(S::spec_one()).radians));
    } else {
        let first = arc.spec_get_angle(S::spec_zero()).radians;
        let turns: int = if s.value() > 0real {
            1
        } else {
            -1
        };
        let turn = 2real * S::spec_pi().value();
        reals::lemma_one_multiple(turn);
        assert(scalar::turned_by(last.radians, first, turns));
    }
}

/// The first curve starts where the arc does, also where numbers round: it is enough that
/// zero steps cover the same angle as the arc does up to zero.
pub proof fn law_first_quadratic_starts_the_arc<S: Scalar>(arc: Arc<S>)
    requires
        arc.spec_quadratics().len() > 0,
        arc.step_angle().radians * S::spec_from_i32(0) == arc.sweep_angle.radians
            * S::spec_zero(),
    ensures
        arc.spec_quadratics()[0].from == arc.spec_from(),
{
}

/// The determinant of the tangents at the ends of a piece does not depend on which it is.
proof fn lemma_tangents<S: Scalar>(arc: Arc<S>, i: int)
    requires
        scalar::exact::<S>(),
        0 <= i < i32::MAX,
    ensures
        arc.tangent_line(arc.joint(i + 1)).nearly_parallel(arc.tangent_line(arc.joint(i)))
            <==> arc.area_of_a_step() <= S::spec_epsilon(),
{
    let (t1, t2) = (arc.joint(i).radians, arc.joint(i + 1).radians);
    let step = arc.step_angle().radians;
    let (c1, s1) = (t1.spec_cos().value(), t1.spec_sin().value());
    let (c2, s2) = (t2.spec_cos().value(), t2.spec_sin().value());
    let (rx, ry) = (arc.radii.x.value(), arc.radii.y.value());
    let phi = arc.x_rotation.radians;
    let (v1, v2) = (
        arc.spec_tangent_at_angle(arc.joint(i)),
        arc.spec_tangent_at_angle(arc.joint(i + 1)),
    );
    assert((i + 1) as real == i as real + 1real);
    reals::lemma_distribute(step.value(), i as real, 1real);
    assert(scalar::same_value(t2 - t1, step));
    assert(step.spec_sin().value() == s2 * c1 - c2 * s1);
    reals::lemma_rotation_keeps_cross(
        -rx * s2,
        ry * c2,
        -rx * s1,
        ry * c1,
        phi.spec_cos().value(),
        phi.spec_sin().value(),
    );
    assert(v2.spec_cross(v1).value() == (-rx * s2) * (ry * c1) - (ry * c2) * (-rx * s1));
    reals::lemma_pair(-rx, s2, ry, c1);
    reals::lemma_pair(ry, c2, -rx, s1);
    assert(-rx * ry == -(rx * ry) && ry * -rx == -(rx * ry)) by (nonlinear_arith);
    reals::lemma_distribute(-(rx * ry), s2 * c1, c2 * s1);
    let area = rx * ry;
    let turn = s2 * c1 - c2 * s1;
    assert(-area * turn == -(area * turn)) by (nonlinear_arith);
    assert(v2.spec_cross(v1).value() == -(arc.radii.x * arc.radii.y * step.spec_sin()).value());
}

/// An arc can be approximated if it is a point, or if it is not too flat for its size:
/// its tangents then turn enough on each piece to meet.
pub proof fn law_has_quadratics<S: Scalar>(arc: Arc<S>)
    requires
        scalar::exact::<S>(),
    ensures
        arc.spec_has_quadratics() <==> arc.sweep_angle.radians == S::spec_zero()
            || arc.area_of_a_step() > S::spec_epsilon(),
{
    law_quadratic_count(arc);
    lemma_step_count(arc);
    let n = arc.step_count().spec_to_i32()->0;
    assert forall|i: int| 0 <= i < n implies (#[trigger] arc.control_point(i) is Some
        <==> arc.area_of_a_step() > S::spec_epsilon()) by {
        lemma_tangents(arc, i);
    }
    if n > 0 {
        assert(arc.control_point(0) is Some <==> arc.area_of_a_step() > S::spec_epsilon());
    }
}

/// Each curve leaves and arrives along the ellipse: its control point lies on the tangents
/// of the ellipse at the curve's end points, and its end points lie on the ellipse.
pub proof fn law_quadratics_touch_the_ellipse<S: Scalar>(arc: Arc<S>, i: int)
    requires
        scalar::exact::<S>(),
        arc.spec_has_quadratics(),
        0 <= i < arc.spec_quadratics().len(),
    ensures
        ({
            let curve = arc.spec_quadratics()[i];
            let (start, end) = (arc.joint(i), arc.joint(i + 1));
            &&& curve.from == arc.point_at(start)
            &&& curve.to == arc.point_at(end)
            &&& lines::on_line(curve.ctrl, arc.tangent_line(start))
            &&& lines::on_line(curve.ctrl, arc.tangent_line(end))
        }),
{
    assert(arc.control_point(i) is Some);
    lines::law_intersection_lies_on_both_lines(
        arc.tangent_line(arc.joint(i + 1)),
        arc.tangent_line(arc.joint(i)),
    );
}

/// The part of the arc that `i` of its curves cover.
pub open spec fn covered<S: Scalar>(arc: Arc<S>, i: int) -> S {
    S::spec_from_i32(i as i32) / S::spec_from_i32(arc.spec_quadratics().len() as i32)
}

/// The curves cut an arc of up to a full turn into equal parts.
proof fn lemma_joint<S: Scalar>(arc: Arc<S>, i: int)
    requires
        scalar::exact::<S>(),
        arc.sweep_angle.radians.spec_abs() <= scalar::full_turn::<S>(),
        0 <= i <= arc.spec_quadratics().len(),
        0 < arc.spec_quadratics().len(),
    ensures
        arc.joint(i) == arc.spec_get_angle(covered(arc, i)),
{
    lemma_bounded_sweep(arc);
    lemma_step_count(arc);
    let s = arc.sweep_angle.radians;
    let n = arc.step_count().value().floor();
    assert(n == arc.spec_quadratics().len());
    let (b, sign) = (arc.bounded_sweep().value(), s.spec_signum().value());
    let (nv, iv) = (n as real, i as real);
    let part = iv / nv;
    assert(covered(arc, i).value() == part);
    reals::lemma_quotient(b, nv);
    reals::lemma_quotient(iv, nv);
    let (piece, sv) = (b / nv, s.value());
    assert(piece * 1real == piece && piece * -1real == -piece) by (nonlinear_arith);
    let step = arc.step_angle().radians.value();
    assert(step == piece * sign);
    assert(-piece * nv == -(piece * nv)) by (nonlinear_arith);
    assert(step * nv == sv);
    // step * i == step * (n * part) == s * part
    assert(step * (nv * part) == step * nv * part) by (nonlinear_arith);
    assert(step * iv == sv * part);
    assert(scalar::same_value(
        arc.joint(i).radians,
        arc.spec_get_angle(covered(arc, i)).radians,
    ));
}

/// The curves follow the arc: of `n` curves, curve `i` runs from the point of the arc at
/// `i / n` to that at `(i + 1) / n`, and has the tangents of the arc there. The arc covers
/// up to a full turn.
pub proof fn law_quadratics_follow_the_arc<S: Scalar>(arc: Arc<S>, i: int)
    requires
        scalar::exact::<S>(),
        arc.spec_has_quadratics(),
        arc.sweep_angle.radians.spec_abs() <= scalar::full_turn::<S>(),
        0 <= i < arc.spec_quadratics().len(),
    ensures
        ({
            let curve = arc.spec_quadratics()[i];
            let (start, end) = (covered(arc, i), covered(arc, i + 1));
            let (first, last) = (arc.spec_get_angle(start), arc.spec_get_angle(end));
            &&& curve.from == arc.spec_sample(start)
            &&& curve.to == arc.spec_sample(end)
            &&& (curve.ctrl - curve.from).spec_cross(arc.spec_tangent_at_angle(first))
                == S::spec_zero()
            &&& (curve.ctrl - curve.to).spec_cross(arc.spec_tangent_at_angle(last))
                == S::spec_zero()
        }),
{
    lemma_joint(arc, i);
    lemma_joint(arc, i + 1);
    law_quadratics_touch_the_ellipse(arc, i);
}

/// The reversed arc takes as many curves as the arc, also where numbers round: it is enough
/// that the opposite of the angle that it covers has the same magnitude.
pub proof fn law_reversed_arc_has_as_many_quadratics<S: Scalar>(arc: Arc<S>)
    requires
        (-arc.sweep_angle.radians).spec_abs() == arc.sweep_angle.radians.spec_abs(),
    ensures
        arc.spec_flip().spec_quadratics().len() == arc.spec_quadratics().len(),
{
}

/// The joints of the reversed arc are those of the arc, counted from the other end.
proof fn lemma_flipped_joint<S: Scalar>(arc: Arc<S>, i: int)
    requires
        scalar::exact::<S>(),
        arc.sweep_angle.radians.spec_abs() <= scalar::full_turn::<S>(),
        0 <= i <= arc.spec_quadratics().len(),
        0 < arc.spec_quadratics().len(),
    ensures
        arc.spec_flip().bounded_sweep() == arc.bounded_sweep(),
        arc.spec_flip().joint(i) == arc.joint(arc.spec_quadratics().len() - i),
{
    let back = arc.spec_flip();
    let n = arc.spec_quadratics().len();
    assert(scalar::same_value(
        back.sweep_angle.radians.spec_abs(),
        arc.sweep_angle.radians.spec_abs(),
    ));
    lemma_step_count(arc);
    lemma_step_count(back);
    lemma_joint(arc, n - i);
    lemma_joint(back, i);
    let (nv, iv, s) = (n as real, i as real, arc.sweep_angle.radians.value());
    let (u, v) = (covered(back, i).value(), covered(arc, n - i).value());
    assert((n - i) as real == nv - iv);
    assert(u == iv / nv && v == (nv - iv) / nv);
    reals::lemma_quotient(iv, nv);
    reals::lemma_quotient(nv - iv, nv);
    reals::lemma_distribute(nv, u, v);
    reals::lemma_cancel(u + v, nv);
    reals::lemma_cancel(1real, nv);
    assert(u + v == 1real);
    reals::lemma_distribute(s, u, v);
    assert(-s * u == -(s * u)) by (nonlinear_arith);
    assert(scalar::same_value(back.joint(i).radians, arc.joint(n - i).radians));
}

/// A piece of the reversed arc is a piece of the arc, backward.
proof fn lemma_flipped_piece<S: Scalar>(arc: Arc<S>, i: int)
    requires
        scalar::exact::<S>(),
        arc.sweep_angle.radians.spec_abs() <= scalar::full_turn::<S>(),
        0 <= i < arc.spec_quadratics().len(),
    ensures
        ({
            let (back, j) = (arc.spec_flip(), arc.spec_quadratics().len() - 1 - i);
            &&& back.control_point(i) == arc.control_point(j)
            &&& back.quadratic(i).from == arc.quadratic(j).to
            &&& back.quadratic(i).to == arc.quadratic(j).from
        }),
{
    let back = arc.spec_flip();
    let n = arc.spec_quadratics().len();
    lemma_flipped_joint(arc, i);
    lemma_flipped_joint(arc, i + 1);
    let (start, end) = (arc.joint(n - 1 - i), arc.joint(n - i));
    assert(back.tangent_line(back.joint(i)) == arc.tangent_line(end));
    assert(back.tangent_line(back.joint(i + 1)) == arc.tangent_line(start));
    lines::law_intersection_is_symmetric(arc.tangent_line(start), arc.tangent_line(end));
}

/// The curves of the reversed arc are those of the arc, backward: their order is reversed,
/// and so is each curve. The arc covers up to a full turn.
pub proof fn law_quadratics_of_the_reversed_arc<S: Scalar>(arc: Arc<S>)
    requires
        scalar::exact::<S>(),
        arc.sweep_angle.radians.spec_abs() <= scalar::full_turn::<S>(),
    ensures
        arc.spec_flip().spec_has_quadratics() == arc.spec_has_quadratics(),
        arc.spec_flip().spec_quadratics().len() == arc.spec_quadratics().len(),
        forall|i: int|
            0 <= i < arc.spec_quadratics().len() ==> {
                let forth = arc.spec_quadratics()[arc.spec_quadratics().len() - 1 - i];
                #[trigger] arc.spec_flip().spec_quadratics()[i] == QuadraticBezierSegment {
                    from: forth.to,
                    ctrl: forth.ctrl,
                    to: forth.from,
                }
            },
{
    let back = arc.spec_flip();
    let n = arc.spec_quadratics().len();
    assert(scalar::same_value(
        back.sweep_angle.radians.spec_abs(),
        arc.sweep_angle.radians.spec_abs(),
    ));
    lemma_step_count(arc);
    assert(back.step_count() == arc.step_count());
    assert forall|i: int| 0 <= i < n implies (#[trigger] back.control_point(i) is Some
        <==> arc.control_point(n - 1 - i) is Some) by {
        lemma_flipped_piece(arc, i);
    }
    assert forall|i: int| 0 <= i < n implies (#[trigger] arc.control_point(i) is Some
        <==> back.control_point(n - 1 - i) is Some) by {
        lemma_flipped_piece(arc, n - 1 - i);
    }
    assert forall|i: int| 0 <= i < n implies #[trigger] back.spec_quadratics()[i] == ({
        let forth = arc.spec_quadratics()[n - 1 - i];
        QuadraticBezierSegment { from: forth.to, ctrl: forth.ctrl, to: forth.from }
    }) by {
        lemma_flipped_piece(arc, i);
    }
}

/// An arc that covers more than a full turn is approximated once around, as the arc that covers
/// a full turn the same way is.
pub proof fn law_quadratics_run_around_once<S: Scalar>(arc: Arc<S>)
    requires
        scalar::exact::<S>(),
        arc.sweep_angle.radians.spec_abs() >= S::spec_two() * S::spec_pi(),
    ensures
        ({
            let full = S::spec_two() * S::spec_pi();
            let once = Arc {
                sweep_angle: Angle {
                    radians: if arc.sweep_angle.radians < S::spec_zero() {
                        -full
                    } else {
                        full
                    },
                },
                ..arc
            };
            &&& arc.spec_has_quadratics() == once.spec_has_quadratics()
            &&& arc.spec_quadratics() == once.spec_quadratics()
        }),
{
    let full = S::spec_two() * S::spec_pi();
    let sweep = arc.sweep_angle.radians;
    let radians = if sweep < S::spec_zero() {
        -full
    } else {
        full
    };
    let once = Arc { sweep_angle: Angle { radians }, ..arc };
    let p = S::spec_pi().value();
    assert(p * 2real == 2real * p);
    assert(scalar::same_value(once.bounded_sweep(), arc.bounded_sweep()));
    assert(scalar::same_value(radians.spec_signum(), sweep.spec_signum()));
    assert(once.step_angle() == arc.step_angle());
    assert forall|i: int| #[trigger] once.joint(i) == arc.joint(i) by {}
    assert forall|i: int|
        #![trigger once.control_point(i)]
        #![trigger arc.control_point(i)]
        once.control_point(i) == arc.control_point(i) by {
        assert(once.joint(i) == arc.joint(i) && once.joint(i + 1) == arc.joint(i + 1));
        assert(once.tangent_line(once.joint(i)) == arc.tangent_line(arc.joint(i)));
        assert(once.tangent_line(once.joint(i + 1)) == arc.tangent_line(arc.joint(i + 1)));
    }
    assert forall|i: int| #[trigger] once.quadratic(i) == arc.quadratic(i) by {
        assert(once.control_point(i) == arc.control_point(i));
        assert(once.joint(i) == arc.joint(i) && once.joint(i + 1) == arc.joint(i + 1));
    }
    assert(arc.spec_quadratics() =~= once.spec_quadratics());
}

/// An arc can be approximated if it is a point, or if its radii and the sine of the angle that
/// each curve covers span more than the least area that counts.
pub proof fn law_what_can_be_approximated<S: Scalar>(arc: Arc<S>, step: S)
    requires
        scalar::exact::<S>(),
        arc.sweep_angle.radians.spec_abs() <= S::spec_two() * S::spec_pi(),
        step * S::spec_from_i32(arc.spec_quadratics().len() as i32) == arc.sweep_angle.radians,
    ensures
        arc.spec_has_quadratics() <==> arc.spec_quadratics().len() == 0 || (arc.radii.x
            * arc.radii.y * step.spec_sin()).spec_abs() > S::spec_epsilon(),
{
    law_has_quadratics(arc);
    law_quadratic_count(arc);
    lemma_bounded_sweep(arc);
    lemma_step_count(arc);
    let n = arc.spec_quadratics().len();
    if n > 0 {
        let (s, nv) = (arc.sweep_angle.radians.value(), n as real);
        let (b, sign) = (
            arc.bounded_sweep().value(),
            arc.sweep_angle.radians.spec_signum().value(),
        );
        let piece = b / nv;
        reals::lemma_quotient(b, nv);
        assert(piece * 1real == piece && piece * -1real == -piece) by (nonlinear_arith);
        let own = arc.step_angle().radians;
        assert(own.value() == piece * sign);
        assert(-piece * nv == -(piece * nv)) by (nonlinear_arith);
        assert(own.value() * nv == s);
        assert(step.value() * nv == s);
        reals::lemma_cancel(own.value(), nv);
        reals::lemma_cancel(step.value(), nv);
        assert(scalar::same_value(own, step));
    }
}

/// The curves of an arc, whether or not numbers round. The magnitude of the sweep, up to a full
/// turn, is divided by an eighth of a turn and rounded up to give their number. Each leads
/// from a point of the ellipse to the next, one equal step after the other from the start of
/// the arc in the direction of the sweep, and its control point is where the tangents meet.
pub proof fn law_curves_of_an_arc<S: Scalar>(arc: Arc<S>, i: int)
    ensures
        ({
            let sweep = arc.sweep_angle.radians;
            let covered = sweep.spec_abs().spec_min(S::spec_pi() * S::spec_two());
            let steps = (covered / S::spec_frac_pi_4()).spec_ceil();
            let step = covered / steps * sweep.spec_signum();
            let start = arc.start_angle.radians + step * S::spec_from_i32(i as i32);
            let end = arc.start_angle.radians + step * S::spec_from_i32((i + 1) as i32);
            let first = ellipse::touching_line(arc, start);
            let second = ellipse::touching_line(arc, end);
            let curves = arc.spec_quadratics();
            &&& arc.spec_has_quadratics() ==> steps.spec_to_i32() is Some
            &&& steps.spec_to_i32() is Some && steps.spec_to_i32()->0 > 0 ==> curves.len()
                == steps.spec_to_i32()->0
            &&& steps.spec_to_i32() is Some && steps.spec_to_i32()->0 <= 0 ==> curves.len() == 0
            &&& 0 <= i < curves.len() ==> curves[i].from == first.point
            &&& 0 <= i < curves.len() ==> curves[i].to == second.point
            &&& 0 <= i < curves.len() && arc.spec_has_quadratics() ==> second.spec_intersection(
                first,
            ) == Some(curves[i].ctrl)
            &&& 0 <= i < curves.len() && second.spec_intersection(first) is Some ==> curves[i].ctrl
                == second.spec_intersection(first)->0
        }),
{
    if 0 <= i < arc.spec_quadratics().len() && arc.spec_has_quadratics() {
        assert(arc.control_point(i) is Some);
    }
}

/// An arc whose pieces can be counted can be approximated exactly if the tangents at the ends
/// of each piece meet, whether or not numbers round.
pub proof fn law_tangents_of_the_pieces_meet<S: Scalar>(arc: Arc<S>)
    ensures
        ({
            let sweep = arc.sweep_angle.radians;
            let covered = sweep.spec_abs().spec_min(S::spec_pi() * S::spec_two());
            let steps = (covered / S::spec_frac_pi_4()).spec_ceil();
            let step = covered / steps * sweep.spec_signum();
            let line = |i: int|
                ellipse::touching_line(
                    arc,
                    arc.start_angle.radians + step * S::spec_from_i32(i as i32),
                );
            arc.spec_has_quadratics() <==> steps.spec_to_i32() is Some && forall|i: int|
                0 <= i < steps.spec_to_i32()->0 ==> (#[trigger] line(i + 1)).spec_intersection(
                    line(i),
                ) is Some
        }),
{
    let sweep = arc.sweep_angle.radians;
    let covered = sweep.spec_abs().spec_min(S::spec_pi() * S::spec_two());
    let steps = (covered / S::spec_frac_pi_4()).spec_ceil();
    let step = covered / steps * sweep.spec_signum();
    let line = |i: int|
        ellipse::touching_line(
            arc,
            arc.start_angle.radians + step * S::spec_from_i32(i as i32),
        );
    assert forall|i: int|
        line(i + 1).spec_intersection(line(i)) == #[trigger] arc.control_point(i) by {}
    if arc.spec_has_quadratics() {
        assert forall|i: int| 0 <= i < steps.spec_to_i32()->0 implies (#[trigger] line(
            i + 1,
        )).spec_intersection(line(i)) is Some by {
            assert(arc.control_point(i) is Some);
        }
    } else if steps.spec_to_i32() is Some {
        let i = choose|i: int|
            0 <= i < steps.spec_to_i32()->0 && #[trigger] arc.control_point(i) is None;
        assert(line(i + 1).spec_intersection(line(i)) is None);
    }
}

/// How many curves there are before the first piece that cannot be approximated, whether or not
/// numbers round: the tangents at the ends of each piece before it meet, and its own do not.
pub proof fn law_pieces_before_the_first_flat_one<S: Scalar>(arc: Arc<S>, k: nat)
    requires
        arc.meets_for(k),
    ensures
        ({
            let curves = arc.spec_quadratics();
            let sweep = arc.sweep_angle.radians;
            let covered = sweep.spec_abs().spec_min(S::spec_pi() * S::spec_two());
            let steps = (covered / S::spec_frac_pi_4()).spec_ceil();
            let step = covered / steps * sweep.spec_signum();
            let line = |i: int|
                ellipse::touching_line(
                    arc,
                    arc.start_angle.radians + step * S::spec_from_i32(i as i32),
                );
            &&& steps.spec_to_i32() is None ==> k == 0
            &&& steps.spec_to_i32() is Some ==> k <= curves.len()
            &&& steps.spec_to_i32() is Some && k < curves.len() ==> line(
                k as int + 1,
            ).spec_intersection(line(k as int)) is None
            &&& forall|i: int|
                0 <= i < k ==> (#[trigger] line(i + 1)).spec_intersection(line(i)) is Some
            &&& forall|i: int| 0 <= i < k ==> arc.quadratic(i) == #[trigger] curves[i]
        }),
{
    let sweep = arc.sweep_angle.radians;
    let covered = sweep.spec_abs().spec_min(S::spec_pi() * S::spec_two());
    let steps = (covered / S::spec_frac_pi_4()).spec_ceil();
    let step = covered / steps * sweep.spec_signum();
    let line = |i: int|
        ellipse::touching_line(
            arc,
            arc.start_angle.radians + step * S::spec_from_i32(i as i32),
        );
    assert forall|i: int|
        line(i + 1).spec_intersection(line(i)) == #[trigger] arc.control_point(i) by {}
    assert forall|i: int| 0 <= i < k implies (#[trigger] line(i + 1)).spec_intersection(
        line(i),
    ) is Some by {
        assert(arc.control_point(i) is Some);
    }
    assert(arc.control_point(k as int) == line(k as int + 1).spec_intersection(line(k as int)));
}

} // verus!
