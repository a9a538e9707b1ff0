//! Arcs as sequences of points.
use crate::arc::Arc;
use crate::laws::flattening;
use crate::math::Point;
use crate::scalar;
use crate::scalar::Scalar;
use vstd::prelude::*;

verus! {

/// The points of an arc that is approximated by straight lines, one at a time.
///
/// The points start after the start of the arc and end with its end.
#[derive(Copy, Clone, Debug, PartialEq)]
pub struct Flattened<S> {
    /// What is left of the arc.
    pub curve: Arc<S>,
    pub tolerance: S,
    /// The end of the arc has been handed out.
    pub done: bool,
}

impl<S: Scalar> Arc<S> {
    /// How far along the arc the first line of the approximation reaches.
    pub open spec fn spec_flattening_step(self, tolerance: S) -> S {
        let r = (self.spec_from() - self.center).spec_length();
        let a = S::spec_two() * tolerance * r - tolerance * tolerance;
        (a * a / r).spec_acos()
    }

    /// A single line to the end approximates the arc.
    pub open spec fn is_flat(self, tolerance: S) -> bool {
        self.spec_flattening_step(tolerance) >= S::spec_one()
    }

    /// What is left of the arc after `n` lines.
    pub open spec fn after_lines(self, tolerance: S, n: nat) -> Arc<S>
        decreases n,
    {
        if n == 0 {
            self
        } else {
            let rest = self.after_lines(tolerance, (n - 1) as nat);
            rest.spec_after_split(rest.spec_flattening_step(tolerance))
        }
    }

    /// After `n` lines, and not before, one more reaches the end.
    pub open spec fn flattens_after(self, tolerance: S, n: nat) -> bool {
        &&& self.after_lines(tolerance, n).is_flat(tolerance)
        &&& forall|k: nat| k < n ==> !(#[trigger] self.after_lines(tolerance, k)).is_flat(tolerance)
    }

    /// Finitely many lines approximate the arc.
    pub open spec fn flattens(self, tolerance: S) -> bool {
        exists|n: nat| self.flattens_after(tolerance, n)
    }

    /// The number of lines before the last one.
    pub open spec fn line_count(self, tolerance: S) -> nat {
        choose|n: nat| self.flattens_after(tolerance, n)
    }

    /// The ends of the first `n` lines, none of which reaches the end of the arc.
    pub open spec fn first_points(self, tolerance: S, n: nat) -> Seq<Point<S>> {
        Seq::new(n, |k: int| self.after_lines(tolerance, (k + 1) as nat).spec_from())
    }

    /// The ends of the lines that approximate the arc.
    pub open spec fn spec_flattened(self, tolerance: S) -> Seq<Point<S>> {
        let n = self.line_count(tolerance);
        self.first_points(tolerance, n).push(self.after_lines(tolerance, n).spec_to())
    }

    /// How far along the arc the first line of the approximation reaches.
    pub fn flattening_step(&self, tolerance: S) -> (r: S)
        ensures
            r == self.spec_flattening_step(tolerance),
    {
        // Here we make the approximation that for small tolerance values we consider
        // the radius to be constant over each approximated segment.
        let r = self.from().sub(self.center).length();
        let a = S::two().mul(tolerance).mul(r).sub(tolerance.mul(tolerance));
        a.mul(a).div(r).acos()
    }

    /// Whether at most `limit` lines, and one more to the end, approximate the arc.
    pub fn flattens_within(&self, tolerance: S, limit: usize) -> (r: bool)
        ensures
            r == exists|n: nat| n <= limit && #[trigger] self.flattens_after(tolerance, n),
    {
        let mut rest = *self;
        let mut k: usize = 0;
        let mut t = rest.flattening_step(tolerance);
        while !t.ge(S::one())
            invariant
                k <= limit,
                rest == self.after_lines(tolerance, k as nat),
                t == rest.spec_flattening_step(tolerance),
                forall|j: nat|
                    j < k ==> !(#[trigger] self.after_lines(tolerance, j)).is_flat(tolerance),
            decreases limit - k,
        {
            if k == limit {
                return false;
            }
            rest = rest.after_split(t);
            k += 1;
            t = rest.flattening_step(tolerance);
        }
        assert(self.flattens_after(tolerance, k as nat));
        true
    }

    /// Appends the ends of the lines that approximate the arc, in order, to `out`.
    pub fn for_each_flattened(&self, tolerance: S, out: &mut Vec<Point<S>>)
        requires
            self.flattens(tolerance),
        ensures
            final(out)@ == old(out)@ + self.spec_flattened(tolerance),
    {
        let mut rest = *self;
        let ghost n: nat = self.line_count(tolerance);
        let ghost mut k: nat = 0;
        let mut t = rest.flattening_step(tolerance);
        while !t.ge(S::one())
            invariant
                self.flattens_after(tolerance, n),
                k <= n,
                rest == self.after_lines(tolerance, k),
                t == rest.spec_flattening_step(tolerance),
                out@ == old(out)@ + self.first_points(tolerance, k),
            decreases n - k,
        {
            proof {
                assert(k < n);
                k = k + 1;
            }
            rest = rest.after_split(t);
            out.push(rest.from());
            t = rest.flattening_step(tolerance);
        }
        assert(k == n);
        out.push(rest.to());
    }

    /// The points of the arc approximated by straight lines, starting *after* the
    /// current point.
    pub fn flattened(&self, tolerance: S) -> (r: Flattened<S>)
        ensures
            r == (Flattened { curve: *self, tolerance, done: false }),
    {
        Flattened { curve: *self, tolerance, done: false }
    }
}

impl<S: Scalar> Flattened<S> {
    /// The points that are still to come.
    pub open spec fn remaining(self) -> Seq<Point<S>> {
        if self.done {
            Seq::empty()
        } else {
            self.curve.spec_flattened(self.tolerance)
        }
    }

    /// What `next` returns, and what it leaves.
    pub open spec fn spec_next(self) -> (Option<Point<S>>, Flattened<S>) {
        if self.done {
            (None, self)
        } else if self.curve.is_flat(self.tolerance) {
            (Some(self.curve.spec_to()), Flattened { done: true, ..self })
        } else {
            let rest = self.curve.spec_after_split(
                self.curve.spec_flattening_step(self.tolerance),
            );
            (Some(rest.spec_from()), Flattened { curve: rest, ..self })
        }
    }

    /// The next point, or `None` after the end of the arc.
    pub fn next(&mut self) -> (r: Option<Point<S>>)
        ensures
            (r, *final(self)) == old(self).spec_next(),
    {
        if self.done {
            return None;
        }
        let t = self.curve.flattening_step(self.tolerance);
        if t.ge(S::one()) {
            self.done = true;
            return Some(self.curve.to());
        }
        self.curve = self.curve.after_split(t);
        Some(self.curve.from())
    }
}

/// The length of the line from `start` through all `points`, added up from the start.
pub open spec fn polyline_length<S: Scalar>(start: Point<S>, points: Seq<Point<S>>) -> S
    decreases points.len(),
{
    if points.len() == 0 {
        S::spec_zero()
    } else {
        let before = points.drop_last();
        let previous = if before.len() == 0 {
            start
        } else {
            before.last()
        };
        polyline_length(start, before) + (points.last() - previous).spec_length()
    }
}

impl<S: Scalar> Arc<S> {
    /// The length of the lines that approximate the arc.
    ///
    /// It is no less than the distance between the end points of the arc.
    pub fn approximate_length(&self, tolerance: S) -> (r: S)
        requires
            self.flattens(tolerance),
        ensures
            r == polyline_length(self.spec_from(), self.spec_flattened(tolerance)),
            scalar::exact::<S>() ==> (self.spec_to() - self.spec_from()).spec_length() <= r,
    {
        proof {
            if scalar::exact::<S>() {
                flattening::law_approximate_length(*self, tolerance);
            }
        }
        let mut points: Vec<Point<S>> = Vec::new();
        self.for_each_flattened(tolerance, &mut points);
        assert(points@ =~= self.spec_flattened(tolerance));

        let mut start = self.from();
        let mut len = S::zero();
        let mut i: usize = 0;
        while i < points.len()
            invariant
                i <= points.len(),
                points@ == self.spec_flattened(tolerance),
                start == if i == 0 {
                    self.spec_from()
                } else {
                    points@[i - 1]
                },
                len == polyline_length(self.spec_from(), points@.take(i as int)),
            decreases points.len() - i,
        {
            proof {
                let upto = points@.take(i + 1);
                assert(upto.drop_last() =~= points@.take(i as int));
            }
            let p = points[i];
            len = len.add(p.sub(start).length());
            start = p;
            i += 1;
        }
        assert(points@.take(i as int) =~= points@);
        len
    }
}

} // verus!
