//! Arcs as sequences of quadratic Bezier curves.
use crate::arc;
use crate::arc::Arc;
use crate::line::Line;
use crate::math::{Angle, Point};
use crate::quadratic_bezier::QuadraticBezierSegment;
use crate::scalar::Scalar;
use crate::svg_arc::SvgArc;
use vstd::prelude::*;

verus! {

impl<S: Scalar> Arc<S> {
    /// The magnitude of the angle to approximate: no more than a full turn.
    pub open spec fn bounded_sweep(self) -> S {
        self.sweep_angle.radians.spec_abs().spec_min(S::spec_pi() * S::spec_two())
    }

    /// The number of pieces of an eighth of a turn or less, as a scalar.
    pub open spec fn step_count(self) -> S {
        (self.bounded_sweep() / S::spec_frac_pi_4()).spec_ceil()
    }

    /// The angle that each piece covers.
    pub open spec fn step_angle(self) -> Angle<S> {
        Angle {
            radians: self.bounded_sweep() / self.step_count()
                * self.sweep_angle.radians.spec_signum(),
        }
    }

    /// The angle at which piece `i` starts, and the piece before it ends.
    pub open spec fn joint(self, i: int) -> Angle<S> {
        self.start_angle + self.step_angle() * S::spec_from_i32(i as i32)
    }

    /// The point of the ellipse at an angle.
    pub open spec fn point_at(self, angle: Angle<S>) -> Point<S> {
        self.center + arc::spec_sample_ellipse(self.radii, self.x_rotation, angle)
    }

    /// The line that touches the ellipse at an angle.
    pub open spec fn tangent_line(self, angle: Angle<S>) -> Line<S> {
        Line { point: self.point_at(angle), vector: self.spec_tangent_at_angle(angle) }
    }

    /// Where the tangents at the ends of piece `i` meet, if they do.
    pub open spec fn control_point(self, i: int) -> Option<Point<S>> {
        self.tangent_line(self.joint(i + 1)).spec_intersection(self.tangent_line(self.joint(i)))
    }

    /// The area that the tangents at the ends of a piece span.
    pub open spec fn area_of_a_step(self) -> S {
        (self.radii.x * self.radii.y * self.step_angle().radians.spec_sin()).spec_abs()
    }

    /// Piece `i` of the approximation.
    pub open spec fn quadratic(self, i: int) -> QuadraticBezierSegment<S> {
        QuadraticBezierSegment {
            from: self.point_at(self.joint(i)),
            ctrl: self.control_point(i)->0,
            to: self.point_at(self.joint(i + 1)),
        }
    }

    /// The pieces can be counted, and the tangents at the ends of each one meet.
    pub open spec fn spec_has_quadratics(self) -> bool {
        &&& self.step_count().spec_to_i32() is Some
        &&& forall|i: int|
            0 <= i < self.step_count().spec_to_i32()->0 ==> #[trigger] self.control_point(i) is Some
    }

    /// The tangents meet at the ends of the first `k` pieces, and these are all pieces or the
    /// tangents of the next one do not meet.
    pub open spec fn meets_for(self, k: nat) -> bool {
        &&& forall|i: int| 0 <= i < k ==> #[trigger] self.control_point(i) is Some
        &&& match self.step_count().spec_to_i32() {
            None => k == 0,
            Some(n) => if n <= 0 {
                k == 0
            } else {
                k == n || k < n && self.control_point(k as int) is None
            },
        }
    }

    /// The pieces of the approximation, in order.
    pub open spec fn spec_quadratics(self) -> Seq<QuadraticBezierSegment<S>> {
        let n = self.step_count().spec_to_i32()->0;
        Seq::new(
            if n < 0 {
                0
            } else {
                n as nat
            },
            |i: int| self.quadratic(i),
        )
    }

    /// Piece `i` of the approximation in steps of `step`, if the tangents at its ends meet.
    fn quadratic_bezier(&self, step: Angle<S>, i: i32) -> (r: Option<QuadraticBezierSegment<S>>)
        requires
            step == self.step_angle(),
            0 <= i < i32::MAX,
        ensures
            r is Some <==> self.control_point(i as int) is Some,
            r is Some ==> r == Some(self.quadratic(i as int)),
    {
        let a1 = self.start_angle.add(step.mul(S::from_i32(i)));
        let a2 = self.start_angle.add(step.mul(S::from_i32(i + 1)));

        let v1 = arc::sample_ellipse(self.radii, self.x_rotation, a1);
        let v2 = arc::sample_ellipse(self.radii, self.x_rotation, a2);
        let from = self.center.add(v1);
        let to = self.center.add(v2);
        let l1 = Line { point: from, vector: self.tangent_at_angle(a1) };
        let l2 = Line { point: to, vector: self.tangent_at_angle(a2) };
        match l2.intersection(&l1) {
            Some(ctrl) => Some(QuadraticBezierSegment { from, ctrl, to }),
            None => None,
        }
    }

    /// The angle that each piece covers, and the number of pieces if it is a number.
    fn quadratic_steps(&self) -> (r: (Angle<S>, Option<i32>))
        ensures
            r == (self.step_angle(), self.step_count().spec_to_i32()),
    {
        let sign = self.sweep_angle.get().signum();
        let sweep_angle = self.sweep_angle.get().abs().min(S::pi().mul(S::two()));

        let n_steps = sweep_angle.div(S::frac_pi_4()).ceil();
        let step = Angle::radians(sweep_angle.div(n_steps).mul(sign));
        (step, n_steps.to_i32())
    }

    /// Whether the arc can be approximated: its pieces can be counted, and none is so
    /// short or so flat that the tangents at its ends are parallel.
    pub fn has_quadratics(&self) -> (r: bool)
        ensures
            r == self.spec_has_quadratics(),
    {
        let mut curves: Vec<QuadraticBezierSegment<S>> = Vec::new();
        arc_to_to_quadratic_beziers(self, &mut curves)
    }

    /// Appends quadratic Bezier curves that approximate the arc, in order, to `out`.
    pub fn for_each_quadratic_bezier(&self, out: &mut Vec<QuadraticBezierSegment<S>>)
        requires
            self.spec_has_quadratics(),
        ensures
            final(out)@ == old(out)@ + self.spec_quadratics(),
    {
        arc_to_to_quadratic_beziers(self, out);
    }
}

impl<S: Scalar> SvgArc<S> {
    /// Appends quadratic Bezier curves that approximate the arc, in order, to `out`.
    pub fn for_each_quadratic_bezier(&self, out: &mut Vec<QuadraticBezierSegment<S>>)
        requires
            self.spec_is_convertible(),
            self.spec_to_arc().spec_has_quadratics(),
        ensures
            final(out)@ == old(out)@ + self.spec_to_arc().spec_quadratics(),
    {
        Arc::from_svg_arc(self).for_each_quadratic_bezier(out);
    }
}

/// Appends quadratic Bezier curves that approximate the arc, in order, to `out`, up to the
/// first piece of the arc that cannot be approximated. Returns whether there is none.
pub fn arc_to_to_quadratic_beziers<S: Scalar>(
    arc: &Arc<S>,
    out: &mut Vec<QuadraticBezierSegment<S>>,
) -> (r: bool)
    ensures
        r == arc.spec_has_quadratics(),
        r ==> final(out)@ == old(out)@ + arc.spec_quadratics(),
        exists|k: nat| #[trigger]
            arc.meets_for(k) && final(out)@ == old(out)@ + Seq::new(
                k,
                |i: int| arc.quadratic(i),
            ),
{
    let (step, count) = arc.quadratic_steps();
    let n = match count {
        Some(n) => n,
        None => {
            assert(arc.meets_for(0));
            assert(out@ =~= old(out)@ + Seq::new(0, |i: int| arc.quadratic(i)));
            return false;
        },
    };
    let mut i: i32 = 0;
    while i < n
        invariant
            arc.step_count().spec_to_i32() == Some(n),
            step == arc.step_angle(),
            0 <= i,
            i <= n || i == 0,
            forall|j: int| 0 <= j < i ==> #[trigger] arc.control_point(j) is Some,
            out@ == old(out)@ + Seq::new(i as nat, |j: int| arc.quadratic(j)),
        decreases n - i,
    {
        match arc.quadratic_bezier(step, i) {
            Some(curve) => out.push(curve),
            None => {
                assert(arc.meets_for(i as nat));
                return false;
            },
        }
        i += 1;
    }
    assert(arc.meets_for(i as nat));
    true
}

} // verus!
