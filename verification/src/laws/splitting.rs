//! Laws of splitting and reversing arcs.
use crate::arc::Arc;
use crate::math::Angle;
use crate::scalar;
use crate::scalar::Scalar;
use vstd::prelude::*;

verus! {

/// The two parts of a split lie on the same ellipse as the arc, and meet: the first starts
/// where the arc does and ends at the angle at which the second starts, the angle at `t`.
pub proof fn law_split_parts_meet<S: Scalar>(arc: Arc<S>, t: S)
    ensures
        ({
            let (before, after) = (arc.spec_before_split(t), arc.spec_after_split(t));
            &&& before == arc.with_angles(before.start_angle, before.sweep_angle)
            &&& after == arc.with_angles(after.start_angle, after.sweep_angle)
            &&& before.start_angle == arc.start_angle
            &&& before.start_angle + before.sweep_angle == arc.spec_get_angle(t)
            &&& after.start_angle == arc.spec_get_angle(t)
        }),
{
}

/// The part before `t` runs through the arc from its start, `t` times as fast.
pub proof fn law_before_split_samples<S: Scalar>(arc: Arc<S>, t: S, u: S)
    requires
        scalar::exact::<S>(),
    ensures
        arc.spec_before_split(t).spec_sample(u) == arc.spec_sample(t * u),
{
    let s = arc.sweep_angle.radians;
    assert(s.value() * t.value() * u.value() == s.value() * (t.value() * u.value()))
        by (nonlinear_arith);
    assert(scalar::same_value(
        arc.spec_before_split(t).spec_get_angle(u).radians,
        arc.spec_get_angle(t * u).radians,
    ));
}

/// The part after `t` runs through what is left of the arc from `t` on.
pub proof fn law_after_split_samples<S: Scalar>(arc: Arc<S>, t: S, u: S)
    requires
        scalar::exact::<S>(),
    ensures
        arc.spec_after_split(t).spec_sample(u) == arc.spec_sample(t + (S::spec_one() - t) * u),
{
    let (s, tv, uv) = (arc.sweep_angle.radians.value(), t.value(), u.value());
    assert(s * tv + (s - s * tv) * uv == s * (tv + (1real - tv) * uv)) by (nonlinear_arith);
    assert(scalar::same_value(
        arc.spec_after_split(t).spec_get_angle(u).radians,
        arc.spec_get_angle(t + (S::spec_one() - t) * u).radians,
    ));
}

/// The end points of the parts of a split are those of the arc and the point at `t`.
pub proof fn law_split_end_points<S: Scalar>(arc: Arc<S>, t: S)
    requires
        scalar::exact::<S>(),
    ensures
        arc.spec_before_split(t).spec_from() == arc.spec_from(),
        arc.spec_before_split(t).spec_to() == arc.spec_sample(t),
        arc.spec_after_split(t).spec_from() == arc.spec_sample(t),
        arc.spec_after_split(t).spec_to() == arc.spec_to(),
{
    let (zero, one) = (S::spec_zero(), S::spec_one());
    law_before_split_samples(arc, t, zero);
    law_before_split_samples(arc, t, one);
    law_after_split_samples(arc, t, zero);
    law_after_split_samples(arc, t, one);
    let tv = t.value();
    assert(tv * 0real == 0real && (1real - tv) * 0real == 0real) by (nonlinear_arith);
    assert(scalar::same_value(t * zero, zero));
    assert(scalar::same_value(t * one, t));
    assert(scalar::same_value(t + (one - t) * zero, t));
    assert(scalar::same_value(t + (one - t) * one, one));
}

/// The part inside a range runs through the arc from the range's start to its end.
pub proof fn law_split_range_samples<S: Scalar>(arc: Arc<S>, start: S, end: S, u: S)
    requires
        scalar::exact::<S>(),
    ensures
        arc.spec_split_range(start, end).spec_sample(u) == arc.spec_sample(
            start + (end - start) * u,
        ),
{
    let (s, a, b, uv) = (arc.sweep_angle.radians.value(), start.value(), end.value(), u.value());
    assert(s * a + (s * b - s * a) * uv == s * (a + (b - a) * uv)) by (nonlinear_arith);
    assert(scalar::same_value(
        arc.spec_split_range(start, end).spec_get_angle(u).radians,
        arc.spec_get_angle(start + (end - start) * u).radians,
    ));
}

/// Taking the part inside a range is equivalent to splitting at the range's end points:
/// first at its start and then what is left at the end, or the other way around.
pub proof fn law_split_range_is_two_splits<S: Scalar>(arc: Arc<S>, start: S, end: S)
    requires
        scalar::exact::<S>(),
    ensures
        start != S::spec_one() ==> arc.spec_split_range(start, end) == arc.spec_after_split(
            start,
        ).spec_before_split((end - start) / (S::spec_one() - start)),
        end != S::spec_zero() ==> arc.spec_split_range(start, end) == arc.spec_before_split(
            end,
        ).spec_after_split(start / end),
{
    let (s, a, b) = (arc.sweep_angle.radians.value(), start.value(), end.value());
    let part = arc.spec_split_range(start, end);
    if start != S::spec_one() {
        if a == 1real {
            assert(scalar::same_value(start, S::spec_one()));
        }
        let d = 1real - a;
        assert((s - s * a) * ((b - a) / d) == s * b - s * a) by (nonlinear_arith)
            requires
                d == 1real - a,
                d != 0real,
        {
            assert((s - s * a) == s * d);
            assert(s * d * ((b - a) / d) == s * (d * ((b - a) / d)));
            assert(d * ((b - a) / d) == b - a);
        }
        let other = arc.spec_after_split(start).spec_before_split(
            (end - start) / (S::spec_one() - start),
        );
        assert(scalar::same_value(part.sweep_angle.radians, other.sweep_angle.radians));
    }
    if end != S::spec_zero() {
        if b == 0real {
            assert(scalar::same_value(end, S::spec_zero()));
        }
        assert((s * b) * (a / b) == s * a) by (nonlinear_arith)
            requires
                b != 0real,
        {
            assert(s * b * (a / b) == s * (b * (a / b)));
            assert(b * (a / b) == a);
        }
        let other = arc.spec_before_split(end).spec_after_split(start / end);
        assert(scalar::same_value(part.start_angle.radians, other.start_angle.radians));
        assert(scalar::same_value(part.sweep_angle.radians, other.sweep_angle.radians));
    }
}

/// Two arcs lie on the same ellipse, and start at and cover the same angles, but for the
/// sign of zero.
pub open spec fn same_arc<S: Scalar>(arc: Arc<S>, other: Arc<S>) -> bool {
    &&& other == arc.with_angles(other.start_angle, other.sweep_angle)
    &&& same_angle(arc.start_angle, other.start_angle)
    &&& same_angle(arc.sweep_angle, other.sweep_angle)
}

/// Two angles are the same, but for the sign of zero.
pub open spec fn same_angle<S: Scalar>(a: Angle<S>, b: Angle<S>) -> bool {
    a == b || a.radians.spec_equals(b.radians)
}

/// The angles of the arc are changed neither by adding zero nor by multiplying by one, and
/// vanish when multiplied by zero.
pub open spec fn has_exact_angles<S: Scalar>(arc: Arc<S>) -> bool {
    &&& scalar::has_exact_sums(arc.start_angle.radians)
    &&& scalar::has_exact_sums(arc.sweep_angle.radians)
    &&& scalar::has_exact_multiples(arc.sweep_angle.radians)
}

/// Zero and one round nothing where nothing is rounded.
pub proof fn law_exact_scalars_have_exact_units<S: Scalar>(a: S)
    requires
        scalar::exact::<S>(),
    ensures
        scalar::has_exact_sums(a),
        scalar::has_exact_multiples(a),
{
    let v = a.value();
    assert(v * 0real == 0real) by (nonlinear_arith);
    assert(scalar::same_value(a * S::spec_one(), a));
    assert(scalar::same_value(-(-a), a));
}

/// The range from 0 to 1 is the whole arc, and the range from 1 to 0 is the reversed arc.
/// Neither rounds.
pub proof fn law_whole_ranges<S: Scalar>(arc: Arc<S>)
    requires
        has_exact_angles(arc),
    ensures
        same_arc(arc.spec_split_range(S::spec_zero(), S::spec_one()), arc),
        same_arc(arc.spec_split_range(S::spec_one(), S::spec_zero()), arc.spec_flip()),
        scalar::exact::<S>() ==> arc.spec_split_range(S::spec_zero(), S::spec_one()) == arc,
        scalar::exact::<S>() ==> arc.spec_split_range(S::spec_one(), S::spec_zero())
            == arc.spec_flip(),
{
    let back = arc.spec_split_range(S::spec_one(), S::spec_zero());
    if scalar::exact::<S>() {
        let whole = arc.spec_split_range(S::spec_zero(), S::spec_one());
        assert(scalar::same_value(whole.start_angle.radians, arc.start_angle.radians));
        assert(scalar::same_value(whole.sweep_angle.radians, arc.sweep_angle.radians));
        assert(scalar::same_value(
            back.sweep_angle.radians,
            arc.spec_flip().sweep_angle.radians,
        ));
    }
}

/// The parts of a split are the parts inside the ranges before and after `t`, and the part
/// after 0 is the whole arc. None of this rounds.
pub proof fn law_split_is_two_ranges<S: Scalar>(arc: Arc<S>, t: S)
    requires
        has_exact_angles(arc),
        scalar::has_exact_sums(arc.swept(t).radians),
    ensures
        same_arc(arc.spec_split_range(S::spec_zero(), t), arc.spec_before_split(t)),
        arc.spec_split_range(t, S::spec_one()) == arc.spec_after_split(t),
        same_arc(arc.spec_after_split(S::spec_zero()), arc),
        arc.spec_before_split(S::spec_one()) == arc,
        scalar::exact::<S>() ==> arc.spec_split_range(S::spec_zero(), t)
            == arc.spec_before_split(t),
        scalar::exact::<S>() ==> arc.spec_after_split(S::spec_zero()) == arc,
{
    if scalar::exact::<S>() {
        let (before, first) = (
            arc.spec_before_split(t),
            arc.spec_split_range(S::spec_zero(), t),
        );
        assert(scalar::same_value(before.start_angle.radians, first.start_angle.radians));
        assert(scalar::same_value(before.sweep_angle.radians, first.sweep_angle.radians));
        let whole = arc.spec_after_split(S::spec_zero());
        assert(scalar::same_value(whole.start_angle.radians, arc.start_angle.radians));
        assert(scalar::same_value(whole.sweep_angle.radians, arc.sweep_angle.radians));
    }
}

/// Cutting twice is cutting once: the part after `t` of the part after `s`, and the part
/// before `t` of the part before `s`, are parts of the arc.
pub proof fn law_two_cuts_are_one<S: Scalar>(arc: Arc<S>, s: S, t: S)
    requires
        scalar::exact::<S>(),
    ensures
        arc.spec_after_split(s).spec_after_split(t) == arc.spec_after_split(s + t - s * t),
        arc.spec_before_split(s).spec_before_split(t) == arc.spec_before_split(s * t),
{
    let (a, sv, tv) = (arc.sweep_angle.radians.value(), s.value(), t.value());
    let (twice, once) = (
        arc.spec_after_split(s).spec_after_split(t),
        arc.spec_after_split(s + t - s * t),
    );
    assert(a * sv + (a - a * sv) * tv == a * (sv + tv - sv * tv)) by (nonlinear_arith);
    assert(a * sv * tv == a * (sv * tv)) by (nonlinear_arith);
    assert(scalar::same_value(twice.start_angle.radians, once.start_angle.radians));
    assert(scalar::same_value(twice.sweep_angle.radians, once.sweep_angle.radians));
    assert(scalar::same_value(
        arc.spec_before_split(s).spec_before_split(t).sweep_angle.radians,
        arc.spec_before_split(s * t).sweep_angle.radians,
    ));
}

/// The angle at 0 is the angle at which the arc starts, and the angle at 1 the one at which
/// it ends. Neither rounds.
pub proof fn law_angles_at_the_ends<S: Scalar>(arc: Arc<S>)
    requires
        has_exact_angles(arc),
    ensures
        same_angle(arc.spec_get_angle(S::spec_zero()), arc.start_angle),
        arc.spec_get_angle(S::spec_one()) == arc.start_angle + arc.sweep_angle,
        arc.spec_get_angle(S::spec_one()) == arc.spec_end_angle(),
        scalar::exact::<S>() ==> arc.spec_get_angle(S::spec_zero()) == arc.start_angle,
{
    if scalar::exact::<S>() {
        let first = arc.spec_get_angle(S::spec_zero()).radians;
        assert(scalar::same_value(first, arc.start_angle.radians));
    }
}

/// Between its ends, the angle grows in proportion to `t`.
pub proof fn law_angle_is_linear<S: Scalar>(arc: Arc<S>, t: S)
    requires
        scalar::exact::<S>(),
    ensures
        arc.spec_get_angle(t) == arc.start_angle * (S::spec_one() - t) + (arc.start_angle
            + arc.sweep_angle) * t,
{
    let (a, s, tv) = (
        arc.start_angle.radians.value(),
        arc.sweep_angle.radians.value(),
        t.value(),
    );
    assert(a + s * tv == a * (1real - tv) + (a + s) * tv) by (nonlinear_arith);
    assert(scalar::same_value(
        arc.spec_get_angle(t).radians,
        (arc.start_angle * (S::spec_one() - t) + (arc.start_angle + arc.sweep_angle) * t).radians,
    ));
}

/// A reversed arc runs through the same points in the other direction.
pub proof fn law_flip_samples<S: Scalar>(arc: Arc<S>, u: S)
    requires
        scalar::exact::<S>(),
    ensures
        arc.spec_flip().spec_sample(u) == arc.spec_sample(S::spec_one() - u),
        arc.spec_flip().spec_from() == arc.spec_to(),
        arc.spec_flip().spec_to() == arc.spec_from(),
{
    lemma_flip_sample(arc, u);
    lemma_flip_sample(arc, S::spec_zero());
    lemma_flip_sample(arc, S::spec_one());
    assert(scalar::same_value(S::spec_one() - S::spec_zero(), S::spec_one()));
    assert(scalar::same_value(S::spec_one() - S::spec_one(), S::spec_zero()));
}

proof fn lemma_flip_sample<S: Scalar>(arc: Arc<S>, u: S)
    requires
        scalar::exact::<S>(),
    ensures
        arc.spec_flip().spec_sample(u) == arc.spec_sample(S::spec_one() - u),
{
    let (s, uv) = (arc.sweep_angle.radians.value(), u.value());
    assert(s + (-s) * uv == s * (1real - uv)) by (nonlinear_arith);
    assert(scalar::same_value(
        arc.spec_flip().spec_get_angle(u).radians,
        arc.spec_get_angle(S::spec_one() - u).radians,
    ));
}

/// Reversing an arc twice gives it back. Of numbers that round, only the angle at which it
/// starts may differ.
pub proof fn law_flip_twice<S: Scalar>(arc: Arc<S>)
    requires
        scalar::has_exact_multiples(arc.sweep_angle.radians),
    ensures
        arc.spec_flip().spec_flip() == arc.with_angles(
            arc.spec_flip().spec_flip().start_angle,
            arc.sweep_angle,
        ),
        scalar::exact::<S>() ==> arc.spec_flip().spec_flip() == arc,
{
    if scalar::exact::<S>() {
        let twice = arc.spec_flip().spec_flip();
        assert(scalar::same_value(twice.start_angle.radians, arc.start_angle.radians));
    }
}

/// The parts of an arc by their angles, whether or not numbers round: they lie on the ellipse of
/// the arc. The part before `t` starts with the arc and covers `t` times its sweep, the part
/// after `t` starts where the other ends and covers what is left, and the part in a range
/// starts where the part before its start ends and covers the difference.
pub proof fn law_angles_of_the_parts<S: Scalar>(arc: Arc<S>, s: S, t: S)
    ensures
        ({
            let (start, sweep) = (arc.start_angle.radians, arc.sweep_angle.radians);
            let (before, after) = (arc.spec_before_split(t), arc.spec_after_split(t));
            let part = arc.spec_split_range(s, t);
            &&& before.center == arc.center && after.center == arc.center
            &&& before.radii == arc.radii && after.radii == arc.radii
            &&& before.x_rotation == arc.x_rotation && after.x_rotation == arc.x_rotation
            &&& part.center == arc.center && part.radii == arc.radii
            &&& part.x_rotation == arc.x_rotation
            &&& before.start_angle.radians == start
            &&& before.sweep_angle.radians == sweep * t
            &&& after.start_angle.radians == start + sweep * t
            &&& after.sweep_angle.radians == sweep - sweep * t
            &&& part.start_angle.radians == start + sweep * s
            &&& part.sweep_angle.radians == sweep * t - sweep * s
        }),
{
}

/// The parts of a split cover the arc together, and a part ends where the range does.
pub proof fn law_parts_add_up<S: Scalar>(arc: Arc<S>, s: S, t: S)
    requires
        scalar::exact::<S>(),
    ensures
        ({
            let (before, after) = (arc.spec_before_split(t), arc.spec_after_split(t));
            let part = arc.spec_split_range(s, t);
            &&& before.sweep_angle.radians + after.sweep_angle.radians == arc.sweep_angle.radians
            &&& after.start_angle.radians + after.sweep_angle.radians == arc.start_angle.radians
                + arc.sweep_angle.radians
            &&& part.start_angle.radians + part.sweep_angle.radians == arc.start_angle.radians
                + arc.sweep_angle.radians * t
        }),
{
    let (before, after) = (arc.spec_before_split(t), arc.spec_after_split(t));
    let part = arc.spec_split_range(s, t);
    let (start, sweep) = (arc.start_angle.radians, arc.sweep_angle.radians);
    assert(scalar::same_value(before.sweep_angle.radians + after.sweep_angle.radians, sweep));
    assert(scalar::same_value(
        after.start_angle.radians + after.sweep_angle.radians,
        start + sweep,
    ));
    assert(scalar::same_value(
        part.start_angle.radians + part.sweep_angle.radians,
        start + sweep * t,
    ));
}

/// The reversed arc lies on the same ellipse, starts at the angle at which the arc ends and
/// covers the opposite angle, whether or not numbers round.
pub proof fn law_angles_of_the_reversed_arc<S: Scalar>(arc: Arc<S>)
    ensures
        ({
            let back = arc.spec_flip();
            &&& back.center == arc.center
            &&& back.radii == arc.radii
            &&& back.x_rotation == arc.x_rotation
            &&& back.start_angle.radians == arc.start_angle.radians + arc.sweep_angle.radians
            &&& back.sweep_angle.radians == -arc.sweep_angle.radians
        }),
{
}

} // verus!
