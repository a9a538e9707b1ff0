//! Laws of lines.
use crate::laws::reals;
use crate::line::Line;
use crate::math::Point;
use crate::scalar;
use crate::scalar::Scalar;
use vstd::prelude::*;

verus! {

/// The point lies on the line.
pub open spec fn on_line<S: Scalar>(p: Point<S>, line: Line<S>) -> bool {
    (p - line.point).spec_cross(line.vector) == S::spec_zero()
}

/// The point at which two lines meet lies on both.
pub proof fn law_intersection_lies_on_both_lines<S: Scalar>(line: Line<S>, other: Line<S>)
    requires
        scalar::exact::<S>(),
        !line.nearly_parallel(other),
    ensures
        line.spec_intersection(other) is Some,
        on_line(line.spec_intersection(other)->0, line),
        on_line(line.spec_intersection(other)->0, other),
{
    let p = line.spec_intersection(other)->0;
    let (vx, vy) = (line.vector.x.value(), line.vector.y.value());
    let (wx, wy) = (other.vector.x.value(), other.vector.y.value());
    let (px, py) = (line.point.x.value(), line.point.y.value());
    let (qx, qy) = (other.point.x.value(), other.point.y.value());
    let (a, b) = (line.moment().value(), other.moment().value());
    let det = vx * wy - vy * wx;
    let (x, y) = (p.x.value(), p.y.value());
    assert(line.vector.spec_cross(other.vector).value() == det);
    reals::lemma_quotient(1real, det);
    reals::lemma_cramer(a, b, vx, vy, wx, wy, 1real / det);

    assert(px * (py + vy) - py * (px + vx) == px * vy - py * vx) by (nonlinear_arith);
    assert(qx * (qy + wy) - qy * (qx + wx) == qx * wy - qy * wx) by (nonlinear_arith);
    assert((x - px) * vy - (y - py) * vx == (x * vy - y * vx) - (px * vy - py * vx))
        by (nonlinear_arith);
    assert((x - qx) * wy - (y - qy) * wx == (x * wy - y * wx) - (qx * wy - qy * wx))
        by (nonlinear_arith);
    assert(scalar::same_value((p - line.point).spec_cross(line.vector), S::spec_zero()));
    assert(scalar::same_value((p - other.point).spec_cross(other.vector), S::spec_zero()));
}

/// Two lines meet where the second meets the first.
pub proof fn law_intersection_is_symmetric<S: Scalar>(line: Line<S>, other: Line<S>)
    requires
        scalar::exact::<S>(),
    ensures
        line.spec_intersection(other) == other.spec_intersection(line),
{
    let (vx, vy) = (line.vector.x.value(), line.vector.y.value());
    let (wx, wy) = (other.vector.x.value(), other.vector.y.value());
    let (forth, back) = (
        line.vector.spec_cross(other.vector),
        other.vector.spec_cross(line.vector),
    );
    let det = vx * wy - vy * wx;
    assert(wx * vy == vy * wx && wy * vx == vx * wy) by (nonlinear_arith);
    assert(forth.value() == det && back.value() == -det);
    assert(forth.spec_abs().value() == back.spec_abs().value());
    if !line.nearly_parallel(other) {
        let (p, q) = (line.spec_intersection(other)->0, other.spec_intersection(line)->0);
        let (a, b) = (line.moment().value(), other.moment().value());
        reals::lemma_quotient(1real, det);
        reals::lemma_quotient(1real, -det);
        let (inverse, opposite) = (1real / det, 1real / -det);
        assert(opposite == -inverse) by (nonlinear_arith)
            requires
                opposite * -det == 1real,
                inverse * det == 1real,
                det != 0real,
        ;
        let (x, y) = (b * vx - a * wx, b * vy - a * wy);
        assert(-x * -inverse == x * inverse && -y * -inverse == y * inverse) by (nonlinear_arith);
        assert(scalar::same_value(p.x, q.x));
        assert(scalar::same_value(p.y, q.y));
    }
}

/// Two lines have no point of intersection exactly if the area that their directions span is not
/// above the least that counts, whether or not numbers round.
pub proof fn law_parallel_lines<S: Scalar>(line: Line<S>, other: Line<S>)
    ensures
        line.spec_intersection(other) is None <==> (line.vector.x * other.vector.y
            - line.vector.y * other.vector.x).spec_abs() <= S::spec_epsilon(),
{
}

/// The point at which two lines meet is on both: the vectors that lead to it from the points
/// of the lines span no area with their directions.
pub proof fn law_lines_meet<S: Scalar>(line: Line<S>, other: Line<S>)
    requires
        scalar::exact::<S>(),
        line.spec_intersection(other) is Some,
    ensures
        ({
            let p = line.spec_intersection(other)->0;
            let (v, w) = (line.vector, other.vector);
            &&& (p.x - line.point.x) * v.y == (p.y - line.point.y) * v.x
            &&& (p.x - other.point.x) * w.y == (p.y - other.point.y) * w.x
        }),
{
    law_intersection_lies_on_both_lines(line, other);
    let p = line.spec_intersection(other)->0;
    let (v, w) = (line.vector, other.vector);
    assert((p - line.point).spec_cross(v).value() == 0real);
    assert((p - other.point).spec_cross(w).value() == 0real);
    assert(scalar::same_value(
        (p.x - line.point.x) * v.y,
        (p.y - line.point.y) * v.x,
    ));
    assert(scalar::same_value(
        (p.x - other.point.x) * w.y,
        (p.y - other.point.y) * w.x,
    ));
}

/// Where two lines meet by Cramer's rule, whether or not numbers round. A line is given by the
/// moments of its direction about the origin, and two lines by a system of two equations.
pub proof fn law_intersection_by_cramers_rule<S: Scalar>(line: Line<S>, other: Line<S>)
    requires
        line.spec_intersection(other) is Some,
    ensures
        ({
            let p = line.spec_intersection(other)->0;
            let (v, w) = (line.vector, other.vector);
            let a = line.point.x * (line.point.y + v.y) - line.point.y * (line.point.x + v.x);
            let b = other.point.x * (other.point.y + w.y) - other.point.y * (other.point.x + w.x);
            let inverse = S::spec_one() / (v.x * w.y - v.y * w.x);
            &&& p.x == (b * v.x - a * w.x) * inverse
            &&& p.y == (b * v.y - a * w.y) * inverse
        }),
{
}

} // verus!
