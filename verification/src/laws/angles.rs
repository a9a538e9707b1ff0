//! Angles and the directions that they stand for.
use crate::laws::lengths;
use crate::laws::reals;
use crate::math::Vector;
use crate::scalar;
use crate::scalar::Scalar;
use crate::utils;
use vstd::prelude::*;

verus! {

/// The direction of a vector.
pub open spec fn heading<S: Scalar>(v: Vector<S>) -> S {
    v.y.spec_atan2(v.x)
}

/// The vector has a direction.
pub open spec fn is_nonzero<S: Scalar>(v: Vector<S>) -> bool {
    v.x.value() != 0real || v.y.value() != 0real
}

/// The real number that stands for a full turn.
pub open spec fn turn<S: Scalar>() -> real {
    2real * S::spec_pi().value()
}

/// A direction, and the length of a vector, give the vector.
pub proof fn lemma_heading<S: Scalar>(v: Vector<S>) -> (length: real)
    requires
        scalar::exact::<S>(),
        is_nonzero(v),
    ensures
        scalar::is_polar_form(length, heading(v), v.x, v.y),
        -S::spec_pi().value() < heading(v).value() <= S::spec_pi().value(),
{
    assert(scalar::direction_of(v.x, v.y, heading(v)));
    choose|length: real| #[trigger] scalar::is_polar_form(length, heading(v), v.x, v.y)
}

/// The coordinates of a unit vector are the cosine and the sine of its direction.
pub proof fn lemma_unit_heading<S: Scalar>(v: Vector<S>)
    requires
        scalar::exact::<S>(),
        v.x.value() * v.x.value() + v.y.value() * v.y.value() == 1real,
    ensures
        is_nonzero(v),
        heading(v).spec_cos() == v.x,
        heading(v).spec_sin() == v.y,
{
    assert(0real * 0real == 0real);
    assert(is_nonzero(v));
    let length = lemma_heading(v);
    lemma_polar_square(length, heading(v), v);
    assert(length == 1real) by (nonlinear_arith)
        requires
            length * length == 1real,
            length > 0real,
    ;
    let (c, s) = (heading(v).spec_cos().value(), heading(v).spec_sin().value());
    assert(length * c == c && length * s == s) by (nonlinear_arith)
        requires
            length == 1real,
    ;
    assert(scalar::same_value(heading(v).spec_cos(), v.x));
    assert(scalar::same_value(heading(v).spec_sin(), v.y));
}

/// The angle between two vectors is that of their directions, within one turn.
pub proof fn lemma_directed_angle<S: Scalar>(v1: Vector<S>, v2: Vector<S>) -> (turns: int)
    requires
        scalar::exact::<S>(),
        is_nonzero(v1),
        is_nonzero(v2),
    ensures
        ({
            let d = utils::spec_directed_angle(v1, v2);
            &&& 0real <= d.value() < turn::<S>()
            &&& scalar::turned_by(d, heading(v2) - heading(v1), turns)
        }),
{
    let l1 = lemma_heading(v1);
    let l2 = lemma_heading(v2);
    reals::lemma_one_multiple(turn::<S>());
    if heading(v2) - heading(v1) < S::spec_zero() {
        1
    } else {
        0
    }
}

/// The sine of the angle between two vectors has the sign of their cross product.
pub proof fn lemma_sine_of_directed_angle<S: Scalar>(v1: Vector<S>, v2: Vector<S>) -> (scale: real)
    requires
        scalar::exact::<S>(),
        is_nonzero(v1),
        is_nonzero(v2),
    ensures
        scale > 0real,
        scale * utils::spec_directed_angle(v1, v2).spec_sin().value() == v1.x.value()
            * v2.y.value() - v1.y.value() * v2.x.value(),
{
    let (l1, l2) = (lemma_heading(v1), lemma_heading(v2));
    let turns = lemma_directed_angle(v1, v2);
    let (h1, h2) = (heading(v1), heading(v2));
    let (c1, s1) = (h1.spec_cos().value(), h1.spec_sin().value());
    let (c2, s2) = (h2.spec_cos().value(), h2.spec_sin().value());
    assert((h2 - h1).spec_sin().value() == s2 * c1 - c2 * s1);
    reals::lemma_pair(l1, c1, l2, s2);
    reals::lemma_pair(l1, s1, l2, c2);
    let scale = l1 * l2;
    reals::lemma_distribute(scale, s2 * c1, c2 * s1);
    assert(c1 * s2 == s2 * c1 && s1 * c2 == c2 * s1);
    assert(scale > 0real) by (nonlinear_arith)
        requires
            scale == l1 * l2,
            l1 > 0real,
            l2 > 0real,
    ;
    scale
}

/// Between different vectors of one length there is an angle.
pub proof fn lemma_directed_angle_is_not_zero<S: Scalar>(v1: Vector<S>, v2: Vector<S>)
    requires
        scalar::exact::<S>(),
        is_nonzero(v1),
        is_nonzero(v2),
        v1.x.value() * v1.x.value() + v1.y.value() * v1.y.value() == v2.x.value() * v2.x.value()
            + v2.y.value() * v2.y.value(),
        v1.x.value() != v2.x.value() || v1.y.value() != v2.y.value(),
    ensures
        utils::spec_directed_angle(v1, v2).value() != 0real,
{
    let (l1, l2) = (lemma_heading(v1), lemma_heading(v2));
    let turns = lemma_directed_angle(v1, v2);
    if utils::spec_directed_angle(v1, v2).value() == 0real {
        let (h1, h2) = (heading(v1), heading(v2));
        reals::lemma_multiples(0, turns, turn::<S>());
        reals::lemma_one_multiple(turn::<S>());
        assert(scalar::turned_by(h1, h2, turns));
        lemma_polar_square(l1, h1, v1);
        lemma_polar_square(l2, h2, v2);
        assert(l1 == l2) by (nonlinear_arith)
            requires
                l1 * l1 == l2 * l2,
                l1 > 0real,
                l2 > 0real,
        ;
    }
}

/// The square of the length of a vector.
proof fn lemma_polar_square<S: Scalar>(length: real, angle: S, v: Vector<S>)
    requires
        scalar::exact::<S>(),
        scalar::is_polar_form(length, angle, v.x, v.y),
    ensures
        length * length == v.x.value() * v.x.value() + v.y.value() * v.y.value(),
{
    let (c, s) = (angle.spec_cos().value(), angle.spec_sin().value());
    reals::lemma_pair(length, c, length, c);
    reals::lemma_pair(length, s, length, s);
    let square = length * length;
    reals::lemma_distribute(square, s * s, c * c);
    assert(square * 1real == square);
}

/// The length in the polar form of a vector is its length.
pub proof fn lemma_polar_length<S: Scalar>(length: real, angle: S, v: Vector<S>)
    requires
        scalar::exact::<S>(),
        scalar::is_polar_form(length, angle, v.x, v.y),
    ensures
        v.spec_length().value() == length,
{
    lemma_polar_square(length, angle, v);
    lengths::lemma_length(v);
    reals::lemma_same_square(v.spec_length().value(), length);
}

/// An angle within one turn is not changed by taking full turns away.
pub proof fn lemma_within_a_turn<S: Scalar>(a: S)
    requires
        scalar::exact::<S>(),
        0real <= a.value() < turn::<S>(),
    ensures
        a.spec_abs().spec_rem(scalar::full_turn()) == a,
{
    let full = scalar::full_turn::<S>();
    let left = a.spec_abs().spec_rem(full);
    assert(scalar::truncated_remainder(a.spec_abs().value(), full.value(), left.value()));
    let k = choose|k: int| a.value() == left.value() + #[trigger] scalar::multiple(k, full.value());
    reals::lemma_multiples(0, k, full.value());
    reals::lemma_one_multiple(full.value());
    assert(k == 0);
    assert(scalar::same_value(left, a));
}

/// Taking full turns away keeps the direction.
pub proof fn lemma_remainder_of_turns<S: Scalar>(a: S)
    requires
        scalar::exact::<S>(),
    ensures
        a.spec_rem(scalar::full_turn()).spec_cos() == a.spec_cos(),
        a.spec_rem(scalar::full_turn()).spec_sin() == a.spec_sin(),
{
    let full = scalar::full_turn::<S>();
    let left = a.spec_rem(full);
    assert(scalar::truncated_remainder(a.value(), full.value(), left.value()));
    let k = choose|k: int| a.value() == left.value() + #[trigger] scalar::multiple(k, full.value());
    assert(scalar::turned_by(a, left, k));
}

/// Between two angles of one turn lies no full turn.
proof fn lemma_not_a_turn<S: Scalar>(a: S)
    requires
        scalar::exact::<S>(),
        0real < a.value() < turn::<S>(),
    ensures
        a.spec_sin().value() != 0real || a.spec_cos().value() != 1real,
{
    if a.value() == S::spec_pi().value() {
        assert(scalar::same_value(a, S::spec_pi()));
    }
}

/// Angles with the same sine and cosine differ by full turns.
pub proof fn lemma_same_direction<S: Scalar>(a: S, b: S) -> (turns: int)
    requires
        scalar::exact::<S>(),
        a.spec_sin() == b.spec_sin(),
        a.spec_cos() == b.spec_cos(),
    ensures
        scalar::turned_by(a, b, turns),
{
    let full = scalar::full_turn::<S>();
    let (sin, cos) = (a.spec_sin().value(), a.spec_cos().value());
    let d = a - b;
    assert(d.spec_sin().value() == sin * cos - cos * sin);
    assert(cos * sin == sin * cos) by (nonlinear_arith);
    assert(d.spec_cos().value() == cos * cos + sin * sin);
    lemma_remainder_of_turns(d);
    let left = d.spec_rem(full);
    assert(scalar::truncated_remainder(d.value(), full.value(), left.value()));
    let k = choose|k: int| d.value() == left.value() + #[trigger] scalar::multiple(k, full.value());
    if left.value() > 0real {
        lemma_not_a_turn(left);
    }
    if left.value() < 0real {
        let up = left + full;
        reals::lemma_one_multiple(turn::<S>());
        assert(scalar::turned_by(up, left, 1));
        lemma_not_a_turn(up);
    }
    k
}

/// The opposite angle has the same cosine and the opposite sine.
pub proof fn lemma_opposite_angle<S: Scalar>(a: S)
    requires
        scalar::exact::<S>(),
    ensures
        (-a).spec_cos().value() == a.spec_cos().value(),
        (-a).spec_sin().value() == -a.spec_sin().value(),
{
    let zero = S::spec_zero();
    let (sin, cos) = (a.spec_sin().value(), a.spec_cos().value());
    assert(scalar::same_value(a - a, zero));
    assert((a - a).spec_sin().value() == sin * cos - cos * sin);
    assert((a - a).spec_cos().value() == cos * cos + sin * sin);
    assert(cos * sin == sin * cos) by (nonlinear_arith);
    assert(scalar::same_value(zero - a, -a));
    assert((zero - a).spec_sin().value() == 0real * cos - 1real * sin);
    assert((zero - a).spec_cos().value() == 1real * cos + 0real * sin);
}

/// The sine and the cosine of no angle.
pub proof fn lemma_no_angle<S: Scalar>()
    requires
        scalar::exact::<S>(),
    ensures
        S::spec_zero().spec_cos().value() == 1real,
        S::spec_zero().spec_sin().value() == 0real,
{
    let zero = S::spec_zero();
    let (sin, cos) = (zero.spec_sin().value(), zero.spec_cos().value());
    assert(scalar::same_value(zero - zero, zero));
    assert((zero - zero).spec_cos().value() == cos * cos + sin * sin);
    assert((zero - zero).spec_sin().value() == sin * cos - cos * sin);
    assert(sin * cos == cos * sin) by (nonlinear_arith);
}

/// The sine and the cosine of a sum of angles.
pub proof fn lemma_sum_of_angles<S: Scalar>(a: S, b: S)
    requires
        scalar::exact::<S>(),
    ensures
        (a + b).spec_sin().value() == a.spec_sin().value() * b.spec_cos().value()
            + a.spec_cos().value() * b.spec_sin().value(),
        (a + b).spec_cos().value() == a.spec_cos().value() * b.spec_cos().value()
            - a.spec_sin().value() * b.spec_sin().value(),
{
    let back = -b;
    lemma_opposite_angle(b);
    assert(scalar::same_value(a - back, a + b));
    let (sin, cos, other) = (a.spec_sin().value(), a.spec_cos().value(), b.spec_sin().value());
    assert((a - back).spec_sin().value() == sin * back.spec_cos().value() - cos
        * back.spec_sin().value());
    assert((a - back).spec_cos().value() == cos * back.spec_cos().value() + sin
        * back.spec_sin().value());
    assert(cos * -other == -(cos * other) && sin * -other == -(sin * other)) by (nonlinear_arith);
}

/// An angle up to half a turn whose cosine is not negative is at most a quarter of a turn.
pub proof fn lemma_acute_angle<S: Scalar>(a: S)
    requires
        scalar::exact::<S>(),
        0real <= a.value() <= S::spec_pi().value(),
        a.spec_cos().value() >= 0real,
    ensures
        a.value() <= S::spec_pi().value() / 2real,
{
    let p = S::spec_pi().value();
    if a.value() == p {
        assert(scalar::same_value(a, S::spec_pi()));
    } else if a.value() > p / 2real {
        let (sin, cos) = (a.spec_sin().value(), a.spec_cos().value());
        lemma_sum_of_angles(a, a);
        assert((a + a).spec_sin().value() < 0real);
        assert(sin * cos >= 0real && cos * sin >= 0real) by (nonlinear_arith)
            requires
                sin > 0real,
                cos >= 0real,
        ;
    }
}

/// An angle within one turn whose cosine is one is zero.
pub proof fn lemma_zero_angle<S: Scalar>(a: S)
    requires
        scalar::exact::<S>(),
        0real <= a.value() < turn::<S>(),
        a.spec_cos().value() == 1real,
    ensures
        a.value() == 0real,
{
    let sin = a.spec_sin().value();
    assert(1real * 1real == 1real);
    assert(sin * sin == 0real);
    reals::lemma_square(sin);
    if a.value() > 0real {
        lemma_not_a_turn(a);
    }
}

/// An angle within one turn has no sine only if it is half a turn.
pub proof fn lemma_half_turn<S: Scalar>(d: S)
    requires
        scalar::exact::<S>(),
        0real < d.value() < turn::<S>(),
    ensures
        d.spec_sin().value() == 0real <==> d.value() == S::spec_pi().value(),
{
    if d.value() == S::spec_pi().value() {
        assert(scalar::same_value(d, S::spec_pi()));
        let sine = d.spec_sin().value();
        assert(-1real * -1real == 1real);
        assert(sine * sine == 0real);
        reals::lemma_square(sine);
    }
}

/// The sine of an angle is not further from zero than the angle.
proof fn lemma_sine_is_small<S: Scalar>(a: S)
    requires
        scalar::exact::<S>(),
        a.value() >= 0real,
    ensures
        -a.value() <= a.spec_sin().value() <= a.value(),
{
    let (v, sin, cos) = (a.value(), a.spec_sin().value(), a.spec_cos().value());
    if v >= 1real {
        reals::lemma_square(cos);
        if sin < -1real {
            let up = -sin;
            reals::lemma_scale_order(1real, up, up);
            assert(-sin * -sin == sin * sin) by (nonlinear_arith);
        }
    } else {
        reals::lemma_scale(v, v, 1real);
    }
}

/// For small angles, the sine is nearly the angle and the cosine nearly one.
pub proof fn lemma_small_angle<S: Scalar>(d: S)
    requires
        scalar::exact::<S>(),
    ensures
        ({
            let half = d.value() * d.value() / 2real;
            &&& -half <= d.spec_sin().value() - d.value() <= half
            &&& -half <= d.spec_cos().value() - 1real <= half
        }),
{
    let v = d.value();
    let up = if v >= 0real {
        d
    } else {
        -d
    };
    lemma_opposite_angle(d);
    assert(-v * -v == v * v) by (nonlinear_arith);
    lemma_small_positive_angle(up);
}

/// [`lemma_small_angle`] for angles that are not negative.
proof fn lemma_small_positive_angle<S: Scalar>(d: S)
    requires
        scalar::exact::<S>(),
        d.value() >= 0real,
    ensures
        ({
            let half = d.value() * d.value() / 2real;
            &&& -half <= d.spec_sin().value() - d.value() <= 0real
            &&& -half <= d.spec_cos().value() - 1real <= 0real
        }),
{
    let h = d / S::spec_two();
    let (v, hv) = (d.value(), h.value());
    assert(hv == v / 2real);
    // 1 - cos d is twice the square of the sine of half the angle.
    assert(scalar::same_value(h + h, d));
    lemma_sum_of_angles(h, h);
    let (sin, cos) = (h.spec_sin().value(), h.spec_cos().value());
    assert(d.spec_cos().value() == 1real - 2real * (sin * sin));
    reals::lemma_square(sin);
    lemma_sine_is_small(h);
    reals::lemma_bounded_square(sin, hv);
    reals::lemma_expand(hv, hv, hv, hv);
    assert(hv + hv == v);
}

/// The direction from the x axis.
pub proof fn lemma_heading_of_x_axis<S: Scalar>()
    requires
        scalar::exact::<S>(),
    ensures
        heading(Vector { x: S::spec_one(), y: S::spec_zero() }).value() == 0real,
{
}

} // verus!
