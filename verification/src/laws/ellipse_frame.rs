//! The end points of an arc, in the frame in which its ellipse is the unit circle.
use crate::laws::angles;
use crate::laws::reals;
use crate::scalar;
use crate::scalar::Scalar;
use crate::svg_arc::SvgArc;
use vstd::prelude::*;

verus! {

/// Half the chord in the frame of the unit circle, x coordinate.
pub open spec fn chord_x<S: Scalar>(svg: SvgArc<S>) -> real {
    svg.half_chord().x.value() / svg.radii.x.value()
}

/// Half the chord in the frame of the unit circle, y coordinate.
pub open spec fn chord_y<S: Scalar>(svg: SvgArc<S>) -> real {
    svg.half_chord().y.value() / svg.radii.y.value()
}

/// The square of the length of half the chord in the frame of the unit circle.
pub open spec fn chord_square<S: Scalar>(svg: SvgArc<S>) -> real {
    chord_x(svg) * chord_x(svg) + chord_y(svg) * chord_y(svg)
}

/// The center lies off the chord at a right angle.
pub proof fn lemma_frame<S: Scalar>(svg: SvgArc<S>)
    requires
        scalar::exact::<S>(),
        svg.radii.x.value() != 0real,
        svg.radii.y.value() != 0real,
    ensures
        ({
            let (x, y, f) = (chord_x(svg), chord_y(svg), svg.center_factor().value());
            let (rx, ry) = (svg.radii.x.value(), svg.radii.y.value());
            let (start, end) = (svg.start_direction(), svg.end_direction());
            &&& svg.half_chord().x.value() == x * rx
            &&& svg.half_chord().y.value() == y * ry
            &&& svg.local_center().x.value() == f * y * rx
            &&& svg.local_center().y.value() == -(f * x * ry)
            &&& start.x.value() == x - f * y
            &&& start.y.value() == y + f * x
            &&& end.x.value() == -x - f * y
            &&& end.y.value() == -y + f * x
        }),
{
    let (x, y, f) = (chord_x(svg), chord_y(svg), svg.center_factor().value());
    let (rx, ry) = (svg.radii.x.value(), svg.radii.y.value());
    let (hx, hy) = (svg.half_chord().x.value(), svg.half_chord().y.value());
    reals::lemma_quotient(hx, rx);
    reals::lemma_quotient(hy, ry);

    // f * (rx * (y * ry)) / ry
    assert(f * (rx * (y * ry)) == f * y * rx * ry) by (nonlinear_arith);
    reals::lemma_cancel(f * y * rx, ry);
    // -f * (ry * (x * rx)) / rx
    assert(-f * (ry * (x * rx)) == -(f * x * ry) * rx) by (nonlinear_arith);
    reals::lemma_cancel(-(f * x * ry), rx);

    let (fy, fx) = (f * y, f * x);
    reals::lemma_distribute(rx, x, fy);
    reals::lemma_distribute(rx, -x, fy);
    reals::lemma_distribute(ry, y, fx);
    reals::lemma_distribute(ry, -y, fx);
    assert(-x * rx == -(x * rx) && -y * ry == -(y * ry)) by (nonlinear_arith);
    reals::lemma_cancel(x - fy, rx);
    reals::lemma_cancel(-x - fy, rx);
    reals::lemma_cancel(y + fx, ry);
    reals::lemma_cancel(-y + fx, ry);
}

/// The chord, measured on the ellipse and on the unit circle.
pub proof fn lemma_chord<S: Scalar>(svg: SvgArc<S>)
    requires
        scalar::exact::<S>(),
        svg.radii.x.value() != 0real,
        svg.radii.y.value() != 0real,
    ensures
        ({
            let r = svg.radii.x.value() * svg.radii.y.value();
            &&& r * r > 0real
            &&& svg.chord_measure().value() == r * r * chord_square(svg)
            &&& svg.chord_measure().value() != 0real ==> chord_square(svg) > 0real
        }),
{
    lemma_frame(svg);
    let (x, y) = (chord_x(svg), chord_y(svg));
    let (rx, ry) = (svg.radii.x.value(), svg.radii.y.value());
    let r = rx * ry;
    reals::lemma_nonzero_product(rx, ry);
    reals::lemma_square(r);
    assert(rx * (y * ry) == r * y) by (nonlinear_arith)
        requires
            r == rx * ry,
    ;
    assert(ry * (x * rx) == r * x) by (nonlinear_arith)
        requires
            r == rx * ry,
    ;
    reals::lemma_pair(r, y, r, y);
    reals::lemma_pair(r, x, r, x);
    reals::lemma_distribute(r * r, x * x, y * y);
    assert(svg.chord_measure().value() == r * r * chord_square(svg));
    reals::lemma_square(x);
    reals::lemma_square(y);
    if chord_square(svg) == 0real {
        let rr = r * r;
        assert(rr * 0real == 0real) by (nonlinear_arith);
    }
}

/// Where the center lies, relative to the chord.
pub proof fn lemma_center_factor<S: Scalar>(svg: SvgArc<S>)
    requires
        scalar::exact::<S>(),
        svg.spec_is_convertible(),
    ensures
        svg.flags.large_arc == svg.flags.sweep ==> svg.center_factor().value() <= 0real,
        svg.flags.large_arc != svg.flags.sweep ==> svg.center_factor().value() >= 0real,
        svg.center_factor().value() == 0real <==> svg.is_half_turn(),
        svg.reaches() ==> chord_square(svg) * (1real + svg.center_factor().value()
            * svg.center_factor().value()) == 1real,
        svg.reaches() <==> chord_square(svg) <= 1real,
        svg.is_half_turn() <==> chord_square(svg) == 1real,
        !svg.reaches() ==> chord_square(svg) * (svg.center_factor().value()
            * svg.center_factor().value()) == chord_square(svg) - 1real,
{
    lemma_chord(svg);
    let r = svg.radii.x.value() * svg.radii.y.value();
    let (rr, n, f) = (r * r, chord_square(svg), svg.center_factor().value());
    let m = svg.chord_measure();
    let q = (svg.radii.x * svg.radii.y * (svg.radii.x * svg.radii.y) - m) / m;
    let root = q.spec_abs().spec_sqrt().value();
    assert(rr * n != 0real) by {
        reals::lemma_nonzero_product(rr, n);
    }
    assert(m.value() > 0real) by (nonlinear_arith)
        requires
            m.value() == rr * n,
            rr > 0real,
            n > 0real,
    ;
    assert(q.value() == (rr - m.value()) / m.value());
    assert(q.spec_abs().value() >= 0real);
    assert(root >= 0real);
    assert(1real * root == root && -1real * root == -root) by (nonlinear_arith);
    assert(f == root || f == -root);
    let distance = q.spec_abs().value();
    assert(root * root == distance);
    reals::lemma_square(root);
    reals::lemma_quotient(rr - m.value(), m.value());
    if svg.is_half_turn() {
        let (qv, mv) = (q.value(), m.value());
        assert(qv == 0real) by (nonlinear_arith)
            requires
                qv * mv == 0real,
                mv > 0real,
        ;
    }
    if q.value() == 0real {
        let mv = m.value();
        assert(0real * mv == 0real) by (nonlinear_arith);
        let radii = svg.radii.x * svg.radii.y;
        assert(scalar::same_value(m, radii * radii));
    }
    if n <= 1real {
        reals::lemma_scale(rr, n, 1real);
    } else {
        reals::lemma_scale_order(1real, n, rr);
        assert(n * rr == rr * n) by (nonlinear_arith);
    }
    if svg.is_half_turn() {
        reals::lemma_cancel(n, rr);
        reals::lemma_cancel(1real, rr);
        assert(rr * n == rr * 1real);
    }
    if n == 1real {
        let radii = svg.radii.x * svg.radii.y;
        assert(rr * 1real == rr);
        assert(scalar::same_value(m, radii * radii));
    }
    if !svg.reaches() {
        if q.value() > 0real {
            reals::lemma_scale_order(0real, q.value(), m.value());
            let mv = m.value();
            assert(0real * mv == 0real) by (nonlinear_arith);
        }
        assert(-root * -root == root * root) by (nonlinear_arith);
        let ff = f * f;
        assert(ff == -q.value());
        let (qv, mv) = (q.value(), m.value());
        assert(-qv * mv == -(qv * mv)) by (nonlinear_arith);
        assert(ff * (rr * n) == rr * n - rr);
        assert(rr * (n * ff) == ff * (rr * n)) by (nonlinear_arith);
        reals::lemma_distribute(rr, n, 1real);
        let total = n * ff;
        assert(rr * total == rr * (n - 1real));
        reals::lemma_cancel(total, rr);
        reals::lemma_cancel(n - 1real, rr);
    }
    if svg.reaches() {
        if q.value() < 0real {
            reals::lemma_scale_order(q.value(), 0real, m.value());
            let mv = m.value();
            assert(0real * mv == 0real) by (nonlinear_arith);
        }
        assert(-root * -root == root * root) by (nonlinear_arith);
        assert(f * f == q.value());
        // rr * n * f * f == rr - rr * n
        let ff = f * f;
        assert(ff * (rr * n) == rr - rr * n);
        reals::lemma_distribute(n, 1real, ff);
        reals::lemma_distribute(rr, n, n * ff);
        assert(rr * (n * ff) == ff * (rr * n)) by (nonlinear_arith);
        let total = n * (1real + ff);
        assert(rr * total == rr);
        reals::lemma_cancel(total, rr);
        reals::lemma_cancel(1real, rr);
    }
}

/// Both end points are equally far from the center.
pub proof fn lemma_direction_squares<S: Scalar>(svg: SvgArc<S>)
    requires
        scalar::exact::<S>(),
        svg.spec_is_convertible(),
    ensures
        ({
            let (start, end) = (svg.start_direction(), svg.end_direction());
            let f = svg.center_factor().value();
            let square = chord_square(svg) * (1real + f * f);
            &&& start.x.value() * start.x.value() + start.y.value() * start.y.value() == square
            &&& end.x.value() * end.x.value() + end.y.value() * end.y.value() == square
        }),
{
    lemma_frame(svg);
    let (x, y, f) = (chord_x(svg), chord_y(svg), svg.center_factor().value());
    let (fx, fy, n) = (f * x, f * y, chord_square(svg));
    reals::lemma_expand(x, fy, x, fy);
    reals::lemma_expand(y, fx, y, fx);
    reals::lemma_expand(-x, fy, -x, fy);
    reals::lemma_expand(-y, fx, -y, fx);
    assert(-x * -x == x * x && -y * -y == y * y) by (nonlinear_arith);
    assert(-x * fy == -(x * fy) && -y * fx == -(y * fx)) by (nonlinear_arith);
    assert(fy * -x == -(x * fy) && fx * -y == -(y * fx)) by (nonlinear_arith);
    assert(x * fy == y * fx) by (nonlinear_arith)
        requires
            fy == f * y,
            fx == f * x,
    ;
    reals::lemma_pair(f, x, f, x);
    reals::lemma_pair(f, y, f, y);
    let ff = f * f;
    reals::lemma_distribute(ff, x * x, y * y);
    reals::lemma_distribute(n, 1real, ff);
}

/// The end points of an arc that reaches lie on the unit circle.
pub proof fn lemma_unit_directions<S: Scalar>(svg: SvgArc<S>)
    requires
        scalar::exact::<S>(),
        svg.spec_is_convertible(),
        svg.reaches(),
    ensures
        ({
            let (start, end) = (svg.start_direction(), svg.end_direction());
            &&& start.x.value() * start.x.value() + start.y.value() * start.y.value() == 1real
            &&& end.x.value() * end.x.value() + end.y.value() * end.y.value() == 1real
        }),
{
    lemma_direction_squares(svg);
    lemma_center_factor(svg);
}

/// The center lies on neither end point.
pub proof fn lemma_nonzero_directions<S: Scalar>(svg: SvgArc<S>)
    requires
        scalar::exact::<S>(),
        svg.spec_is_convertible(),
    ensures
        angles::is_nonzero(svg.start_direction()),
        angles::is_nonzero(svg.end_direction()),
{
    lemma_direction_squares(svg);
    lemma_chord(svg);
    let f = svg.center_factor().value();
    let (n, ff) = (chord_square(svg), f * f);
    reals::lemma_square(f);
    reals::lemma_nonzero_product(n, 1real + ff);
    assert(0real * 0real == 0real);
}

/// On which side of the start direction the end direction lies.
pub proof fn lemma_cross_of_directions<S: Scalar>(svg: SvgArc<S>)
    requires
        scalar::exact::<S>(),
        svg.spec_is_convertible(),
    ensures
        ({
            let (start, end) = (svg.start_direction(), svg.end_direction());
            &&& start.x.value() * end.y.value() - start.y.value() * end.x.value() == 2real
                * (svg.center_factor().value() * chord_square(svg))
            &&& start.x.value() != end.x.value() || start.y.value() != end.y.value()
        }),
{
    lemma_frame(svg);
    lemma_chord(svg);
    let (x, y, f) = (chord_x(svg), chord_y(svg), svg.center_factor().value());
    let (fx, fy) = (f * x, f * y);
    reals::lemma_expand(x, fy, fx, y);
    reals::lemma_expand(y, fx, -x, fy);
    assert(y * -x == -(x * y) && fx * -x == -(x * fx)) by (nonlinear_arith);
    assert(fy * fx == fx * fy && fy * y == y * fy && x * y == y * x);
    assert(x * fx == f * (x * x) && y * fy == f * (y * y)) by (nonlinear_arith)
        requires
            fy == f * y,
            fx == f * x,
    ;
    reals::lemma_distribute(f, x * x, y * y);
    if x == 0real && y == 0real {
        assert(chord_square(svg) == 0real);
    }
}

} // verus!
