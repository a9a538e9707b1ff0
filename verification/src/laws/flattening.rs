//! Laws of approximating arcs by straight lines.
use crate::arc::Arc;
use crate::flattening;
use crate::flattening::Flattened;
use crate::laws::angles;
use crate::laws::lengths;
use crate::laws::reals;
use crate::laws::splitting;
use crate::math::Point;
use crate::scalar;
use crate::scalar::Scalar;
use vstd::prelude::*;

verus! {

/// An arc takes one number of lines only.
proof fn lemma_line_count<S: Scalar>(arc: Arc<S>, tolerance: S, n: nat)
    requires
        arc.flattens_after(tolerance, n),
    ensures
        arc.line_count(tolerance) == n,
{
    let m = arc.line_count(tolerance);
    assert(arc.flattens_after(tolerance, m));
    assert(n < m ==> !arc.after_lines(tolerance, n).is_flat(tolerance));
    assert(m < n ==> !arc.after_lines(tolerance, m).is_flat(tolerance));
}

/// What is left after one line is the arc less one line, however many lines follow.
proof fn lemma_after_one_line<S: Scalar>(arc: Arc<S>, tolerance: S, n: nat)
    ensures
        arc.after_lines(tolerance, 1).after_lines(tolerance, n) == arc.after_lines(
            tolerance,
            n + 1,
        ),
    decreases n,
{
    if n > 0 {
        lemma_after_one_line(arc, tolerance, (n - 1) as nat);
    }
}

/// Asked again and again, the iterator hands out the points of the approximation in
/// order, and then nothing more.
pub proof fn law_next_hands_out_the_points<S: Scalar>(points: Flattened<S>)
    requires
        !points.done ==> points.curve.flattens(points.tolerance),
    ensures
        ({
            let (point, rest) = points.spec_next();
            &&& !rest.done ==> rest.curve.flattens(rest.tolerance)
            &&& point is None <==> points.remaining().len() == 0
            &&& point is None ==> rest == points
            &&& point is Some ==> points.remaining() == seq![point->0] + rest.remaining()
        }),
{
    if !points.done {
        let (arc, tolerance) = (points.curve, points.tolerance);
        let n = arc.line_count(tolerance);
        assert(arc.flattens_after(tolerance, n));
        let (point, rest) = points.spec_next();
        assert(arc.after_lines(tolerance, 0) == arc);
        if arc.is_flat(tolerance) {
            assert(n == 0);
            assert(points.remaining() =~= seq![point->0] + rest.remaining());
        } else {
            assert(n > 0);
            let left = arc.after_lines(tolerance, 1);
            assert(left == rest.curve);
            let m = (n - 1) as nat;
            lemma_after_one_line(arc, tolerance, m);
            assert forall|k: nat| k < m implies !(#[trigger] left.after_lines(
                tolerance,
                k,
            )).is_flat(tolerance) by {
                lemma_after_one_line(arc, tolerance, k);
                assert(!arc.after_lines(tolerance, k + 1).is_flat(tolerance));
            }
            assert(left.flattens_after(tolerance, m));
            lemma_line_count(left, tolerance, m);
            let whole = points.remaining();
            let parts = seq![point->0] + rest.remaining();
            assert forall|k: int| 0 <= k < whole.len() implies whole[k] == parts[k] by {
                if 0 < k {
                    lemma_after_one_line(arc, tolerance, k as nat);
                    assert(left.after_lines(tolerance, k as nat) == arc.after_lines(
                        tolerance,
                        (k + 1) as nat,
                    ));
                }
            }
            assert(whole =~= parts);
        }
    }
}

/// How far along the arc the first `n` lines reach.
pub open spec fn reached<S: Scalar>(arc: Arc<S>, tolerance: S, n: nat) -> S
    decreases n,
{
    if n == 0 {
        S::spec_zero()
    } else {
        let t = reached(arc, tolerance, (n - 1) as nat);
        let step = arc.after_lines(tolerance, (n - 1) as nat).spec_flattening_step(tolerance);
        t + (S::spec_one() - t) * step
    }
}

/// Where along the arc the points of its approximation lie.
pub open spec fn parameters<S: Scalar>(arc: Arc<S>, tolerance: S) -> Seq<S> {
    Seq::new(
        arc.line_count(tolerance),
        |k: int| reached(arc, tolerance, (k + 1) as nat),
    ).push(S::spec_one())
}

/// The numbers grow, from above 0 to at most 1.
pub open spec fn is_ascending<S: Scalar>(ts: Seq<S>) -> bool {
    &&& forall|i: int|
        0 <= i < ts.len() ==> S::spec_zero() < #[trigger] ts[i] && ts[i] <= S::spec_one()
    &&& forall|i: int, j: int| 0 <= i < j < ts.len() ==> #[trigger] ts[i] < #[trigger] ts[j]
}

/// What is left after some lines is the part of the arc after what they reach.
proof fn lemma_rest_is_a_part<S: Scalar>(arc: Arc<S>, tolerance: S, n: nat)
    requires
        scalar::exact::<S>(),
    ensures
        arc.after_lines(tolerance, n) == arc.spec_after_split(reached(arc, tolerance, n)),
    decreases n,
{
    let s = arc.sweep_angle.radians;
    if n == 0 {
        let part = arc.spec_after_split(S::spec_zero());
        let sv = s.value();
        assert(sv * 0real == 0real) by (nonlinear_arith);
        assert(scalar::same_value(part.start_angle.radians, arc.start_angle.radians));
        assert(scalar::same_value(part.sweep_angle.radians, arc.sweep_angle.radians));
    } else {
        lemma_rest_is_a_part(arc, tolerance, (n - 1) as nat);
        let rest = arc.after_lines(tolerance, (n - 1) as nat);
        let t = reached(arc, tolerance, (n - 1) as nat);
        let u = rest.spec_flattening_step(tolerance);
        let (part, next) = (
            arc.spec_after_split(reached(arc, tolerance, n)),
            arc.after_lines(tolerance, n),
        );
        let (sv, tv, uv) = (s.value(), t.value(), u.value());
        assert(sv * tv + (sv - sv * tv) * uv == sv * (tv + (1real - tv) * uv))
            by (nonlinear_arith);
        assert(scalar::same_value(part.start_angle.radians, next.start_angle.radians));
        assert(scalar::same_value(part.sweep_angle.radians, next.sweep_angle.radians));
    }
}

/// A line that leads nowhere is followed by nothing else.
proof fn lemma_no_progress<S: Scalar>(arc: Arc<S>, tolerance: S, k: nat, n: nat)
    requires
        scalar::exact::<S>(),
        k <= n,
        arc.after_lines(tolerance, k).spec_flattening_step(tolerance).value() == 0real,
    ensures
        arc.after_lines(tolerance, n) == arc.after_lines(tolerance, k),
    decreases n,
{
    if k < n {
        lemma_no_progress(arc, tolerance, k, (n - 1) as nat);
        let rest = arc.after_lines(tolerance, k);
        let next = arc.after_lines(tolerance, n);
        let s = rest.sweep_angle.radians.value();
        assert(s * 0real == 0real) by (nonlinear_arith);
        assert(scalar::same_value(next.start_angle.radians, rest.start_angle.radians));
        assert(scalar::same_value(next.sweep_angle.radians, rest.sweep_angle.radians));
    }
}

/// Every line before the last one leads further, and not to the end.
proof fn lemma_progress<S: Scalar>(arc: Arc<S>, tolerance: S, k: nat)
    requires
        scalar::exact::<S>(),
        arc.flattens(tolerance),
        k < arc.line_count(tolerance),
    ensures
        0real < arc.after_lines(tolerance, k).spec_flattening_step(tolerance).value() < 1real,
{
    let n = arc.line_count(tolerance);
    assert(arc.flattens_after(tolerance, n));
    assert(!arc.after_lines(tolerance, k).is_flat(tolerance));
    if arc.after_lines(tolerance, k).spec_flattening_step(tolerance).value() == 0real {
        lemma_no_progress(arc, tolerance, k, n);
    }
}

/// What the lines reach grows, and stays below 1.
proof fn lemma_reached<S: Scalar>(arc: Arc<S>, tolerance: S, j: nat, k: nat)
    requires
        scalar::exact::<S>(),
        arc.flattens(tolerance),
        j <= k <= arc.line_count(tolerance),
    ensures
        0real <= reached(arc, tolerance, j).value() <= reached(arc, tolerance, k).value() < 1real,
        j < k ==> reached(arc, tolerance, j).value() < reached(arc, tolerance, k).value(),
    decreases k,
{
    if k > 0 {
        let before = (k - 1) as nat;
        lemma_reached(
            arc,
            tolerance,
            if j < k {
                j
            } else {
                before
            },
            before,
        );
        lemma_progress(arc, tolerance, before);
        reals::lemma_part_of_the_way(
            reached(arc, tolerance, before).value(),
            arc.after_lines(tolerance, before).spec_flattening_step(tolerance).value(),
        );
    }
}

/// The points of the approximation, at least one, lie on the arc in order: each is further
/// along it than the one before, the first after its start, and the last one is its end.
pub proof fn law_flattened_points_lie_on_the_arc<S: Scalar>(arc: Arc<S>, tolerance: S)
    requires
        scalar::exact::<S>(),
        arc.flattens(tolerance),
    ensures
        arc.spec_flattened(tolerance).len() > 0,
        arc.spec_flattened(tolerance) == parameters(arc, tolerance).map_values(
            |t: S| arc.spec_sample(t),
        ),
        is_ascending(parameters(arc, tolerance)),
        parameters(arc, tolerance).last() == S::spec_one(),
        arc.spec_flattened(tolerance).last() == arc.spec_to(),
{
    let n = arc.line_count(tolerance);
    let (points, ts) = (arc.spec_flattened(tolerance), parameters(arc, tolerance));
    assert forall|i: int| 0 <= i < points.len() implies points[i] == arc.spec_sample(ts[i]) by {
        let k = if i < n {
            (i + 1) as nat
        } else {
            n
        };
        lemma_rest_is_a_part(arc, tolerance, k);
        splitting::law_split_end_points(arc, reached(arc, tolerance, k));
    }
    assert(points =~= ts.map_values(|t: S| arc.spec_sample(t)));
    assert forall|i: int| 0 <= i < ts.len() implies S::spec_zero() < #[trigger] ts[i] && ts[i]
        <= S::spec_one() by {
        if i < n {
            lemma_reached(arc, tolerance, 0, (i + 1) as nat);
        }
    }
    assert forall|i: int, j: int| 0 <= i < j < ts.len() implies #[trigger] ts[i]
        < #[trigger] ts[j] by {
        if j < n {
            lemma_reached(arc, tolerance, (i + 1) as nat, (j + 1) as nat);
        } else {
            lemma_reached(arc, tolerance, (i + 1) as nat, (i + 1) as nat);
        }
    }
}

/// The first line reaches as far as the angle, up to a quarter of a turn, whose cosine is
/// `a * a / r`, where `r` is the distance of the arc's start from its center and `a` is
/// `2 * tolerance * r - tolerance * tolerance`. It leads nowhere exactly if `a * a` is `r`.
pub proof fn law_flattening_step<S: Scalar>(arc: Arc<S>, tolerance: S)
    requires
        scalar::exact::<S>(),
        arc.spec_from() != arc.center,
    ensures
        ({
            let r = (arc.spec_from() - arc.center).spec_length();
            let a = S::spec_two() * tolerance * r - tolerance * tolerance;
            let step = arc.spec_flattening_step(tolerance);
            &&& r > S::spec_zero()
            &&& a * a <= r ==> S::spec_zero() <= step && step * S::spec_two() <= S::spec_pi()
            &&& a * a <= r ==> step.spec_cos() == a * a / r
            &&& a * a <= r ==> (step == S::spec_zero() <==> a * a == r)
        }),
{
    let v = arc.spec_from() - arc.center;
    let r = v.spec_length();
    let a = S::spec_two() * tolerance * r - tolerance * tolerance;
    let step = arc.spec_flattening_step(tolerance);
    let (x, y) = (v.x.value(), v.y.value());
    reals::lemma_square(x);
    reals::lemma_square(y);
    if x == 0real && y == 0real {
        assert(scalar::same_value(arc.spec_from().x, arc.center.x));
        assert(scalar::same_value(arc.spec_from().y, arc.center.y));
    }
    assert((v.x * v.x + v.y * v.y).value() == x * x + y * y);
    assert(0real * 0real == 0real);
    assert(r.value() > 0real);
    let square = a.value() * a.value();
    reals::lemma_square(a.value());
    if square <= r.value() {
        reals::lemma_ratio(square, r.value());
        assert((a * a / r).value() == square / r.value());
        angles::lemma_acute_angle(step);
        if square == r.value() {
            reals::lemma_quotient(square, square);
            let q = square / square;
            assert(q == 1real) by (nonlinear_arith)
                requires
                    q * square == square,
                    square > 0real,
            ;
            angles::lemma_zero_angle(step);
            assert(scalar::same_value(step, S::spec_zero()));
            assert(scalar::same_value(a * a, r));
        }
        if step == S::spec_zero() {
            let zero = S::spec_zero();
            angles::lemma_opposite_angle(zero);
            let (sin, cos) = (zero.spec_sin().value(), zero.spec_cos().value());
            assert(scalar::same_value(zero - zero, zero));
            assert((zero - zero).spec_cos().value() == cos * cos + sin * sin);
            assert(square / r.value() == 1real);
            reals::lemma_quotient(square, r.value());
            assert(scalar::same_value(a * a, r));
        }
    }
}

/// A line through some points is at least as long as the distance from its start to its end.
proof fn lemma_polyline<S: Scalar>(start: Point<S>, points: Seq<Point<S>>)
    requires
        scalar::exact::<S>(),
        points.len() > 0,
    ensures
        (points.last() - start).spec_length() <= flattening::polyline_length(start, points),
    decreases points.len(),
{
    let before = points.drop_last();
    let direct = points.last() - start;
    lengths::lemma_length(direct);
    if before.len() > 0 {
        lemma_polyline(start, before);
        let (first, second) = (before.last() - start, points.last() - before.last());
        lengths::lemma_length(first);
        lengths::lemma_length(second);
        reals::lemma_triangle(
            first.x.value(),
            first.y.value(),
            second.x.value(),
            second.y.value(),
            first.spec_length().value(),
            second.spec_length().value(),
            direct.spec_length().value(),
        );
    } else {
        assert(flattening::polyline_length(start, before) == S::spec_zero());
    }
}

/// No line through points of the arc, taken in order, is longer than `bound`.
///
/// The length of the arc is the least number for which this holds.
pub open spec fn bounds_the_length<S: Scalar>(arc: Arc<S>, bound: S) -> bool {
    forall|ts: Seq<S>|
        #[trigger] is_ascending(ts) ==> flattening::polyline_length(
            arc.spec_from(),
            ts.map_values(|t: S| arc.spec_sample(t)),
        ) <= bound
}

/// The approximate length is at least the distance between the end points of the arc, and
/// at most the length of the arc.
pub proof fn law_approximate_length<S: Scalar>(arc: Arc<S>, tolerance: S)
    requires
        scalar::exact::<S>(),
        arc.flattens(tolerance),
    ensures
        ({
            let length = flattening::polyline_length(
                arc.spec_from(),
                arc.spec_flattened(tolerance),
            );
            &&& (arc.spec_to() - arc.spec_from()).spec_length() <= length
            &&& forall|bound: S| #[trigger] bounds_the_length(arc, bound) ==> length <= bound
        }),
{
    law_flattened_points_lie_on_the_arc(arc, tolerance);
    lemma_polyline(arc.spec_from(), arc.spec_flattened(tolerance));
}

/// What is left of the arc, before each line of its approximation: another line that does not
/// reach the end is drawn exactly as long as the step falls short of 1, and takes that part of
/// what is left. The last line is drawn when the step is at least 1.
pub open spec fn is_flattening<S: Scalar>(arc: Arc<S>, tolerance: S, rests: Seq<Arc<S>>) -> bool {
    &&& rests.len() > 0
    &&& rests[0] == arc
    &&& forall|k: int|
        0 <= k < rests.len() - 1 ==> !((#[trigger] rests[k]).spec_flattening_step(tolerance)
            >= S::spec_one())
    &&& forall|k: int|
        0 <= k < rests.len() - 1 ==> rests[k + 1] == (#[trigger] rests[k]).spec_after_split(
            rests[k].spec_flattening_step(tolerance),
        )
    &&& rests.last().spec_flattening_step(tolerance) >= S::spec_one()
}

/// What is left before each line is what is left after the lines before it.
proof fn lemma_rests<S: Scalar>(arc: Arc<S>, tolerance: S, rests: Seq<Arc<S>>, k: int)
    requires
        is_flattening(arc, tolerance, rests),
        0 <= k < rests.len(),
    ensures
        rests[k] == arc.after_lines(tolerance, k as nat),
    decreases k,
{
    if k > 0 {
        lemma_rests(arc, tolerance, rests, k - 1);
        assert(rests[k - 1 + 1] == rests[k - 1].spec_after_split(
            rests[k - 1].spec_flattening_step(tolerance),
        ));
    }
}

/// The number of lines before the last one, from what is left before each.
proof fn lemma_number_of_rests<S: Scalar>(arc: Arc<S>, tolerance: S, rests: Seq<Arc<S>>)
    requires
        is_flattening(arc, tolerance, rests),
    ensures
        arc.flattens_after(tolerance, (rests.len() - 1) as nat),
{
    let n = (rests.len() - 1) as nat;
    lemma_rests(arc, tolerance, rests, n as int);
    assert forall|k: nat| k < n implies !(#[trigger] arc.after_lines(tolerance, k)).is_flat(
        tolerance,
    ) by {
        lemma_rests(arc, tolerance, rests, k as int);
        assert(!(rests[k as int].spec_flattening_step(tolerance) >= S::spec_one()));
    }
}

/// What is left before each line, if there is a last one.
proof fn lemma_has_rests<S: Scalar>(arc: Arc<S>, tolerance: S, n: nat)
    requires
        arc.flattens_after(tolerance, n),
    ensures
        is_flattening(
            arc,
            tolerance,
            Seq::new(n + 1, |k: int| arc.after_lines(tolerance, k as nat)),
        ),
{
    let rests = Seq::new(n + 1, |k: int| arc.after_lines(tolerance, k as nat));
    assert forall|k: int| 0 <= k < rests.len() - 1 implies !((#[trigger] rests[k])
        .spec_flattening_step(tolerance) >= S::spec_one()) by {
        assert(!arc.after_lines(tolerance, k as nat).is_flat(tolerance));
    }
    assert forall|k: int| 0 <= k < rests.len() - 1 implies rests[k + 1] == (
    #[trigger] rests[k]).spec_after_split(rests[k].spec_flattening_step(tolerance)) by {
        assert(arc.after_lines(tolerance, (k + 1) as nat) == arc.after_lines(
            tolerance,
            k as nat,
        ).spec_after_split(
            arc.after_lines(tolerance, k as nat).spec_flattening_step(tolerance),
        ));
    }
}

/// The arc can be approximated exactly if drawing line after line comes to a last one, and after
/// as many lines as were drawn before it. Whether or not numbers round.
pub proof fn law_what_can_be_flattened<S: Scalar>(arc: Arc<S>, tolerance: S, n: nat)
    ensures
        arc.flattens(tolerance) <==> exists|rests: Seq<Arc<S>>|
            is_flattening(arc, tolerance, rests),
        arc.flattens_after(tolerance, n) <==> exists|rests: Seq<Arc<S>>| #[trigger]
            is_flattening(arc, tolerance, rests) && rests.len() == n + 1,
{
    if arc.flattens(tolerance) {
        lemma_has_rests(arc, tolerance, arc.line_count(tolerance));
    }
    if arc.flattens_after(tolerance, n) {
        lemma_has_rests(arc, tolerance, n);
    }
    assert forall|rests: Seq<Arc<S>>| is_flattening(arc, tolerance, rests) implies #[trigger]
        arc.flattens_after(tolerance, (rests.len() - 1) as nat) by {
        lemma_number_of_rests(arc, tolerance, rests);
    }
    if exists|rests: Seq<Arc<S>>| is_flattening(arc, tolerance, rests) {
        let rests = choose|rests: Seq<Arc<S>>| is_flattening(arc, tolerance, rests);
        lemma_number_of_rests(arc, tolerance, rests);
    }
    if exists|rests: Seq<Arc<S>>| #[trigger]
        is_flattening(arc, tolerance, rests) && rests.len() == n + 1 {
        let rests = choose|rests: Seq<Arc<S>>| #[trigger]
            is_flattening(arc, tolerance, rests) && rests.len() == n + 1;
        lemma_number_of_rests(arc, tolerance, rests);
    }
}

/// The points of the approximation: each line before the last one ends where what is left after
/// it starts, and the last one at the end of what is left. Whether or not numbers round.
pub proof fn law_flattened_points<S: Scalar>(arc: Arc<S>, tolerance: S, rests: Seq<Arc<S>>)
    requires
        is_flattening(arc, tolerance, rests),
    ensures
        ({
            let points = arc.spec_flattened(tolerance);
            &&& points.len() == rests.len()
            &&& forall|k: int|
                0 <= k < rests.len() - 1 ==> #[trigger] points[k] == rests[k + 1].spec_sample(
                    S::spec_zero(),
                )
            &&& points.last() == rests.last().spec_sample(S::spec_one())
        }),
{
    let n = (rests.len() - 1) as nat;
    lemma_number_of_rests(arc, tolerance, rests);
    lemma_line_count(arc, tolerance, n);
    let points = arc.spec_flattened(tolerance);
    assert forall|k: int| 0 <= k < rests.len() - 1 implies #[trigger] points[k] == rests[k
        + 1].spec_sample(S::spec_zero()) by {
        lemma_rests(arc, tolerance, rests, k + 1);
    }
    lemma_rests(arc, tolerance, rests, n as int);
}

/// What the iterator does next: nothing once it is done, the last line if the step of what is
/// left is at least 1, and otherwise a line that takes this part of what is left. Whether or
/// not numbers round.
pub proof fn law_next_line<S: Scalar>(points: Flattened<S>)
    ensures
        ({
            let (point, rest) = points.spec_next();
            let step = points.curve.spec_flattening_step(points.tolerance);
            let left = points.curve.spec_after_split(step);
            &&& points.done ==> point is None && rest == points
            &&& !points.done && step >= S::spec_one() ==> point == Some(
                points.curve.spec_sample(S::spec_one()),
            ) && rest.done
            &&& !points.done && !(step >= S::spec_one()) ==> point == Some(
                left.spec_sample(S::spec_zero()),
            ) && rest == (Flattened { curve: left, tolerance: points.tolerance, done: false })
        }),
{
}

/// The points that are still to come are those of the approximation of what is left, and none
/// once the end has been handed out.
pub proof fn law_remaining_points<S: Scalar>(points: Flattened<S>)
    ensures
        points.done ==> points.remaining().len() == 0,
        !points.done ==> points.remaining() == points.curve.spec_flattened(points.tolerance),
{
}

/// The step of the approximation, whether or not numbers round: the arc cosine of `a * a / r`,
/// where `r` is the distance of the start of the arc from its center.
pub proof fn law_step_of_the_approximation<S: Scalar>(arc: Arc<S>, tolerance: S)
    ensures
        ({
            let r = (arc.spec_sample(S::spec_zero()) - arc.center).spec_length();
            let a = S::spec_two() * tolerance * r - tolerance * tolerance;
            arc.spec_flattening_step(tolerance) == (a * a / r).spec_acos()
        }),
{
}

/// The arc mirrored in the x axis.
pub open spec fn mirrored<S: Scalar>(arc: Arc<S>) -> Arc<S> {
    Arc {
        center: mirrored_point(arc.center),
        radii: arc.radii,
        start_angle: -arc.start_angle,
        sweep_angle: -arc.sweep_angle,
        x_rotation: -arc.x_rotation,
    }
}

/// The point mirrored in the x axis.
pub open spec fn mirrored_point<S: Scalar>(p: Point<S>) -> Point<S> {
    Point { x: p.x, y: -p.y }
}

/// A mirrored arc has mirrored points, parts and steps.
pub proof fn law_mirrored_arcs<S: Scalar>(arc: Arc<S>, t: S, tolerance: S)
    requires
        scalar::exact::<S>(),
    ensures
        mirrored(arc).spec_sample(t) == mirrored_point(arc.spec_sample(t)),
        mirrored(arc).spec_after_split(t) == mirrored(arc.spec_after_split(t)),
        mirrored(arc).spec_flattening_step(tolerance) == arc.spec_flattening_step(tolerance),
{
    lemma_mirrored_sample(arc, t);
    let zero = S::spec_zero();
    lemma_mirrored_sample(arc, zero);
    let image = mirrored(arc);
    let (s, tv) = (arc.sweep_angle.radians.value(), t.value());
    assert(-s * tv == -(s * tv)) by (nonlinear_arith);
    let (part, other) = (image.spec_after_split(t), mirrored(arc.spec_after_split(t)));
    assert(scalar::same_value(part.start_angle.radians, other.start_angle.radians));
    assert(scalar::same_value(part.sweep_angle.radians, other.sweep_angle.radians));
    let (v, w) = (arc.spec_from() - arc.center, image.spec_from() - image.center);
    let y = v.y.value();
    assert(-y * -y == y * y) by (nonlinear_arith);
    assert(w.x.value() == v.x.value() && w.y.value() == -y);
    assert(scalar::same_value(w.x * w.x + w.y * w.y, v.x * v.x + v.y * v.y));
}

proof fn lemma_mirrored_sample<S: Scalar>(arc: Arc<S>, t: S)
    requires
        scalar::exact::<S>(),
    ensures
        mirrored(arc).spec_sample(t) == mirrored_point(arc.spec_sample(t)),
{
    let image = mirrored(arc);
    let (a, b) = (arc.spec_get_angle(t).radians, image.spec_get_angle(t).radians);
    let phi = arc.x_rotation.radians;
    let (s, tv) = (arc.sweep_angle.radians.value(), t.value());
    assert(-s * tv == -(s * tv)) by (nonlinear_arith);
    assert(scalar::same_value(b, -a));
    angles::lemma_opposite_angle(a);
    angles::lemma_opposite_angle(phi);
    let (x, y) = (
        arc.radii.x.value() * a.spec_cos().value(),
        arc.radii.y.value() * a.spec_sin().value(),
    );
    let (ry, sa) = (arc.radii.y.value(), a.spec_sin().value());
    assert(ry * -sa == -(ry * sa)) by (nonlinear_arith);
    let (cos, sin) = (phi.spec_cos().value(), phi.spec_sin().value());
    assert(-y * -sin == y * sin && -y * cos == -(y * cos) && x * -sin == -(x * sin))
        by (nonlinear_arith);
    let (p, q) = (image.spec_sample(t), mirrored_point(arc.spec_sample(t)));
    assert(scalar::same_value(p.x, q.x));
    assert(scalar::same_value(p.y, q.y));
}

/// A mirrored arc is approximated by the mirrored points: which way an arc runs does not matter.
pub proof fn law_flattened_mirrored_arcs<S: Scalar>(arc: Arc<S>, tolerance: S)
    requires
        scalar::exact::<S>(),
        arc.flattens(tolerance),
    ensures
        mirrored(arc).flattens(tolerance),
        mirrored(arc).spec_flattened(tolerance) == arc.spec_flattened(tolerance).map_values(
            |p: Point<S>| mirrored_point(p),
        ),
{
    let n = arc.line_count(tolerance);
    lemma_has_rests(arc, tolerance, n);
    let rests = Seq::new(n + 1, |k: int| arc.after_lines(tolerance, k as nat));
    let images = rests.map_values(|a: Arc<S>| mirrored(a));
    assert forall|k: int| 0 <= k < images.len() implies (#[trigger] images[k])
        .spec_flattening_step(tolerance) == rests[k].spec_flattening_step(tolerance) by {
        law_mirrored_arcs(rests[k], S::spec_zero(), tolerance);
    }
    assert forall|k: int| 0 <= k < images.len() - 1 implies images[k + 1] == (
    #[trigger] images[k]).spec_after_split(images[k].spec_flattening_step(tolerance)) by {
        law_mirrored_arcs(rests[k], rests[k].spec_flattening_step(tolerance), tolerance);
        assert(rests[k + 1] == rests[k].spec_after_split(rests[k].spec_flattening_step(tolerance)));
    }
    assert(is_flattening(mirrored(arc), tolerance, images));
    law_what_can_be_flattened(mirrored(arc), tolerance, n);
    law_flattened_points(mirrored(arc), tolerance, images);
    law_flattened_points(arc, tolerance, rests);
    let (points, others) = (
        arc.spec_flattened(tolerance).map_values(|p: Point<S>| mirrored_point(p)),
        mirrored(arc).spec_flattened(tolerance),
    );
    assert forall|k: int| 0 <= k < points.len() implies points[k] == others[k] by {
        if k < n {
            law_mirrored_arcs(rests[k + 1], S::spec_zero(), tolerance);
            assert(arc.spec_flattened(tolerance)[k] == rests[k + 1].spec_sample(S::spec_zero()));
            assert(others[k] == images[k + 1].spec_sample(S::spec_zero()));
        } else {
            law_mirrored_arcs(rests[k], S::spec_one(), tolerance);
            assert(k == n);
        }
    }
    assert(points =~= others);
}

/// The length of the line through no point, one point, and one point more: each leg is counted
/// once, by the distance of its ends. Whether or not numbers round.
pub proof fn law_legs_of_a_line<S: Scalar>(start: Point<S>, points: Seq<Point<S>>, p: Point<S>)
    ensures
        flattening::polyline_length(start, Seq::empty()) == S::spec_zero(),
        points.len() == 0 ==> flattening::polyline_length(start, points.push(p)) == S::spec_zero()
            + (p - start).spec_length(),
        points.len() > 0 ==> flattening::polyline_length(start, points.push(p))
            == flattening::polyline_length(start, points) + (p - points.last()).spec_length(),
{
    assert(points.push(p).drop_last() =~= points);
    if points.len() == 0 {
        assert(points =~= Seq::empty());
    }
}

/// A single line is as long as its ends are apart, and the length of a line through points is
/// that of its parts together.
pub proof fn law_lengths_add_up<S: Scalar>(
    start: Point<S>,
    first: Seq<Point<S>>,
    rest: Seq<Point<S>>,
)
    requires
        scalar::exact::<S>(),
        first.len() > 0,
    ensures
        first.len() == 1 ==> flattening::polyline_length(start, first) == (first[0]
            - start).spec_length(),
        flattening::polyline_length(start, first + rest) == flattening::polyline_length(
            start,
            first,
        ) + flattening::polyline_length(first.last(), rest),
    decreases rest.len(),
{
    let whole = first + rest;
    if first.len() == 1 {
        assert(first.drop_last() =~= Seq::empty());
        law_legs_of_a_line(start, Seq::empty(), first[0]);
        assert(scalar::same_value(
            flattening::polyline_length(start, first),
            (first[0] - start).spec_length(),
        ));
    }
    if rest.len() == 0 {
        assert(whole =~= first);
        assert(scalar::same_value(
            flattening::polyline_length(start, first) + S::spec_zero(),
            flattening::polyline_length(start, first),
        ));
    } else {
        let less = rest.drop_last();
        law_lengths_add_up(start, first, less);
        assert(whole.drop_last() =~= first + less);
        let leg = (whole.last() - whole.drop_last().last()).spec_length();
        assert(scalar::same_value(
            flattening::polyline_length(start, whole),
            flattening::polyline_length(start, first) + flattening::polyline_length(
                first.last(),
                rest,
            ),
        ));
    }
}

/// The point on the other side of `center`, as far away.
pub open spec fn opposite<S: Scalar>(p: Point<S>, center: Point<S>) -> Point<S> {
    Point { x: center.x + center.x - p.x, y: center.y + center.y - p.y }
}

/// A line through points is as long as the line through the points turned by half a turn about
/// any center: which way a leg runs does not matter.
pub proof fn law_length_of_a_turned_line<S: Scalar>(
    start: Point<S>,
    points: Seq<Point<S>>,
    center: Point<S>,
)
    requires
        scalar::exact::<S>(),
    ensures
        flattening::polyline_length(
            opposite(start, center),
            points.map_values(|p: Point<S>| opposite(p, center)),
        ) == flattening::polyline_length(start, points),
    decreases points.len(),
{
    let turned = points.map_values(|p: Point<S>| opposite(p, center));
    if points.len() > 0 {
        let before = points.drop_last();
        law_length_of_a_turned_line(start, before, center);
        assert(turned.drop_last() =~= before.map_values(|p: Point<S>| opposite(p, center)));
        let previous = if before.len() == 0 {
            start
        } else {
            before.last()
        };
        let (leg, image) = (
            points.last() - previous,
            opposite(points.last(), center) - opposite(previous, center),
        );
        let (x, y) = (leg.x.value(), leg.y.value());
        assert(image.x.value() == -x && image.y.value() == -y);
        assert(-x * -x == x * x && -y * -y == y * y) by (nonlinear_arith);
        assert(scalar::same_value(
            image.x * image.x + image.y * image.y,
            leg.x * leg.x + leg.y * leg.y,
        ));
    }
}

/// A chord of the ellipse is at most as long as the greater radius times the angle it spans.
proof fn lemma_chord<S: Scalar>(arc: Arc<S>, t: S, u: S, reach: S)
    requires
        scalar::exact::<S>(),
        arc.radii.x.spec_abs() <= reach,
        arc.radii.y.spec_abs() <= reach,
        t.value() <= u.value(),
    ensures
        (arc.spec_sample(u) - arc.spec_sample(t)).spec_length().value() <= reach.value()
            * arc.sweep_angle.radians.spec_abs().value() * (u.value() - t.value()),
{
    let (a, b) = (arc.spec_get_angle(t).radians, arc.spec_get_angle(u).radians);
    let d = b - a;
    let phi = arc.x_rotation.radians;
    let (rx, ry, r) = (arc.radii.x.value(), arc.radii.y.value(), reach.value());
    let (c1, s1) = (a.spec_cos().value(), a.spec_sin().value());
    let (c2, s2) = (b.spec_cos().value(), b.spec_sin().value());
    let (cos, sin) = (phi.spec_cos().value(), phi.spec_sin().value());
    let (dc, ds) = (c2 - c1, s2 - s1);

    // dc * dc + ds * ds == 2 - 2 cos d <= d * d
    reals::lemma_expand(c2, c1, c2, c1);
    reals::lemma_expand(s2, s1, s2, s1);
    assert(c1 * c2 == c2 * c1 && s1 * s2 == s2 * s1) by (nonlinear_arith);
    assert(d.spec_cos().value() == c2 * c1 + s2 * s1);
    angles::lemma_small_angle(d);
    let dv = d.value();
    let square = dv * dv;
    assert(dc * dc + ds * ds <= square);

    // The chord, squared.
    let chord = arc.spec_sample(u) - arc.spec_sample(t);
    reals::lemma_distribute(rx, c2, c1);
    reals::lemma_distribute(ry, s2, s1);
    let (x, y) = (rx * dc, ry * ds);
    reals::lemma_distribute(cos, rx * c2, rx * c1);
    reals::lemma_distribute(sin, rx * c2, rx * c1);
    reals::lemma_distribute(cos, ry * s2, ry * s1);
    reals::lemma_distribute(sin, ry * s2, ry * s1);
    assert(chord.x.value() == x * cos - y * sin);
    assert(chord.y.value() == y * cos + x * sin);
    reals::lemma_rotation_keeps_dot(x, y, x, y, cos, sin);
    lengths::lemma_length(chord);
    let length = chord.spec_length().value();
    reals::lemma_pair(rx, dc, rx, dc);
    reals::lemma_pair(ry, ds, ry, ds);
    reals::lemma_bounded_square(rx, r);
    reals::lemma_bounded_square(ry, r);
    reals::lemma_square(dc);
    reals::lemma_square(ds);
    let (cc, ss, rr) = (dc * dc, ds * ds, r * r);
    reals::lemma_scale(cc, rx * rx, rr);
    reals::lemma_scale(ss, ry * ry, rr);
    let (xx, yy) = (rx * rx, ry * ry);
    assert(xx * cc == cc * xx && yy * ss == ss * yy) by (nonlinear_arith);
    assert(cc * rr == rr * cc && ss * rr == rr * ss) by (nonlinear_arith);
    reals::lemma_distribute(rr, cc, ss);
    reals::lemma_square(r);
    reals::lemma_scale(rr, cc + ss, square);
    assert(length * length <= rr * square);

    // The angle that the chord spans.
    let (sweep, tv, uv) = (arc.sweep_angle.radians.value(), t.value(), u.value());
    let magnitude = arc.sweep_angle.radians.spec_abs().value();
    let part = uv - tv;
    reals::lemma_distribute(sweep, uv, tv);
    assert(dv == sweep * part);
    reals::lemma_pair(sweep, part, sweep, part);
    reals::lemma_pair(magnitude, part, magnitude, part);
    assert(-sweep * -sweep == sweep * sweep) by (nonlinear_arith);
    let turn = magnitude * part;
    assert(turn * turn == square);
    reals::lemma_pair(r, turn, r, turn);
    let most = r * turn;
    assert(length * length <= most * most);
    reals::lemma_nonnegative_product(magnitude, part);
    reals::lemma_nonnegative_product(r, turn);
    if length > most {
        reals::lemma_scale_order(most, length, length);
        reals::lemma_scale(most, most, length);
        assert(most * length == length * most) by (nonlinear_arith);
    }
    assert(r * magnitude * part == r * (magnitude * part)) by (nonlinear_arith);
}

/// A line through points of the arc in order is bounded by the greater radius and the angle.
proof fn lemma_line_is_bounded<S: Scalar>(arc: Arc<S>, ts: Seq<S>, reach: S)
    requires
        scalar::exact::<S>(),
        arc.radii.x.spec_abs() <= reach,
        arc.radii.y.spec_abs() <= reach,
        is_ascending(ts),
        ts.len() > 0,
    ensures
        flattening::polyline_length(
            arc.spec_from(),
            ts.map_values(|t: S| arc.spec_sample(t)),
        ).value() <= reach.value() * arc.sweep_angle.radians.spec_abs().value()
            * ts.last().value(),
    decreases ts.len(),
{
    let points = ts.map_values(|t: S| arc.spec_sample(t));
    let less = ts.drop_last();
    let before = less.map_values(|t: S| arc.spec_sample(t));
    assert(points.drop_last() =~= before);
    let rate = reach.value() * arc.sweep_angle.radians.spec_abs().value();
    let last = ts.last();
    assert(S::spec_zero() < ts[ts.len() - 1]);
    if less.len() == 0 {
        lemma_chord(arc, S::spec_zero(), last, reach);
        law_legs_of_a_line(arc.spec_from(), before, arc.spec_sample(last));
        assert(points =~= before.push(arc.spec_sample(last)));
        assert(last.value() - S::spec_zero().value() == last.value());
    } else {
        assert(is_ascending(less)) by {
            assert forall|i: int| 0 <= i < less.len() implies S::spec_zero() < #[trigger] less[i]
                && less[i] <= S::spec_one() by {
                assert(S::spec_zero() < ts[i] && ts[i] <= S::spec_one());
            }
            assert forall|i: int, j: int| 0 <= i < j < less.len() implies #[trigger] less[i]
                < #[trigger] less[j] by {
                assert(ts[i] < ts[j]);
            }
        }
        lemma_line_is_bounded(arc, less, reach);
        let previous = less.last();
        assert(ts[ts.len() - 2] < ts[ts.len() - 1]);
        lemma_chord(arc, previous, last, reach);
        law_legs_of_a_line(arc.spec_from(), before, arc.spec_sample(last));
        assert(points =~= before.push(arc.spec_sample(last)));
        assert(before.last() == arc.spec_sample(previous));
        reals::lemma_distribute(rate, last.value(), previous.value());
    }
}

/// The approximate length is at most the greater radius times the angle that the arc covers: on
/// a circle, the length of the arc. It is at least the distance between the end points.
pub proof fn law_length_is_bounded<S: Scalar>(arc: Arc<S>, tolerance: S, reach: S)
    requires
        scalar::exact::<S>(),
        arc.flattens(tolerance),
        arc.radii.x.spec_abs() <= reach,
        arc.radii.y.spec_abs() <= reach,
    ensures
        ({
            let length = flattening::polyline_length(
                arc.spec_sample(S::spec_zero()),
                arc.spec_flattened(tolerance),
            );
            &&& length <= reach * arc.sweep_angle.radians.spec_abs()
            &&& (arc.spec_sample(S::spec_one()) - arc.spec_sample(S::spec_zero())).spec_length()
                <= length
        }),
{
    law_flattened_points_lie_on_the_arc(arc, tolerance);
    law_approximate_length(arc, tolerance);
    lemma_line_is_bounded(arc, parameters(arc, tolerance), reach);
}

} // verus!
