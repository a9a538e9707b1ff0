use elliptic_arc::arc::{Arc, ArcFlags, SvgArc};
use elliptic_arc::line::Line;
use elliptic_arc::math::{point, vector, Angle, Point, Vector};
use elliptic_arc::quadratic_bezier::QuadraticBezierSegment;
use elliptic_arc::scalar::{greatest, least, Scalar};
use elliptic_arc::segment::{BoundingRect, FlatteningStep, Segment};
use elliptic_arc::to_quadratics::arc_to_to_quadratic_beziers;
use elliptic_arc::utils::directed_angle;
use euclid::approxeq::ApproxEq;
use num_traits::{Float, FloatConst, NumCast, ToPrimitive};

/// A floating point number to do geometry with.
#[derive(Copy, Clone, Debug, PartialEq)]
struct Num<T>(T);

impl<T: Float + FloatConst> Scalar for Num<T> {
    fn zero() -> Self {
        Num(T::zero())
    }
    fn one() -> Self {
        Num(T::one())
    }
    fn two() -> Self {
        Num(T::one() + T::one())
    }
    fn pi() -> Self {
        Num(T::PI())
    }
    fn frac_pi_4() -> Self {
        Num(T::FRAC_PI_4())
    }
    fn epsilon() -> Self {
        Num(<T as NumCast>::from(1e-6).unwrap())
    }
    fn add(self, rhs: Self) -> Self {
        Num(self.0 + rhs.0)
    }
    fn sub(self, rhs: Self) -> Self {
        Num(self.0 - rhs.0)
    }
    fn mul(self, rhs: Self) -> Self {
        Num(self.0 * rhs.0)
    }
    fn div(self, rhs: Self) -> Self {
        Num(self.0 / rhs.0)
    }
    fn rem(self, rhs: Self) -> Self {
        Num(self.0 % rhs.0)
    }
    fn neg(self) -> Self {
        Num(-self.0)
    }
    fn lt(self, rhs: Self) -> bool {
        self.0 < rhs.0
    }
    fn le(self, rhs: Self) -> bool {
        self.0 <= rhs.0
    }
    fn gt(self, rhs: Self) -> bool {
        self.0 > rhs.0
    }
    fn ge(self, rhs: Self) -> bool {
        self.0 >= rhs.0
    }
    fn equals(self, rhs: Self) -> bool {
        self.0 == rhs.0
    }
    fn is_nan(self) -> bool {
        self.0.is_nan()
    }
    fn abs(self) -> Self {
        Num(self.0.abs())
    }
    fn signum(self) -> Self {
        Num(self.0.signum())
    }
    fn min(self, rhs: Self) -> Self {
        Num(self.0.min(rhs.0))
    }
    fn ceil(self) -> Self {
        Num(self.0.ceil())
    }
    fn sqrt(self) -> Self {
        Num(self.0.sqrt())
    }
    fn sin(self) -> Self {
        Num(self.0.sin())
    }
    fn cos(self) -> Self {
        Num(self.0.cos())
    }
    fn acos(self) -> Self {
        Num(self.0.acos())
    }
    fn atan2(self, x: Self) -> Self {
        Num(self.0.atan2(x.0))
    }
    fn to_i32(self) -> Option<i32> {
        ToPrimitive::to_i32(&self.0)
    }
    fn from_i32(n: i32) -> Self {
        Num(<T as NumCast>::from(n).unwrap())
    }
}

fn p<T: Float>(x: T, y: T) -> Point<Num<T>> {
    point(Num(x), Num(y))
}

fn v<T: Float>(x: T, y: T) -> Vector<Num<T>> {
    vector(Num(x), Num(y))
}

fn rad<T: Float + FloatConst>(a: T) -> Angle<Num<T>> {
    Angle::radians(Num(a))
}

fn to_euclid<T: Float>(q: Point<Num<T>>) -> euclid::Point2D<T> {
    euclid::Point2D::new(q.x.0, q.y.0)
}

fn near(a: Num<f64>, b: f64) -> bool {
    (a.0 - b).abs() < 1e-9
}

fn near_point(a: Point<Num<f64>>, b: Point<Num<f64>>) -> bool {
    near(a.x, b.x.0) && near(a.y, b.y.0)
}

fn quadratics<T: Float + FloatConst>(arc: &Arc<Num<T>>) -> Vec<QuadraticBezierSegment<Num<T>>> {
    assert!(arc.has_quadratics());
    let mut out = Vec::new();
    arc.for_each_quadratic_bezier(&mut out);
    out
}

fn some_arc() -> Arc<Num<f64>> {
    Arc {
        center: p(1.0, -2.0),
        radii: v(3.0, 5.0),
        start_angle: rad(0.4),
        sweep_angle: rad(-2.5),
        x_rotation: rad(0.7),
    }
}

fn unit_arc(start: f64, sweep: f64) -> Arc<Num<f64>> {
    Arc {
        center: p(0.0, 0.0),
        radii: v(1.0, 1.0),
        start_angle: rad(start),
        sweep_angle: rad(sweep),
        x_rotation: rad(0.0),
    }
}

#[test]
fn test_to_quadratics() {
    fn do_test(arc: &Arc<Num<f32>>, expexted_count: u32) {
        let mut prev = to_euclid(arc.from());
        let mut count = 0;
        for c in quadratics(arc) {
            assert!(to_euclid(c.from).approx_eq(&prev));
            prev = to_euclid(c.to);
            count += 1;
        }
        let last = to_euclid(arc.to());
        assert!(prev.approx_eq(&last));
        assert_eq!(count, expexted_count);
    }

    do_test(
        &Arc {
            center: p(2.0, 3.0),
            radii: v(10.0, 3.0),
            start_angle: rad(0.1),
            sweep_angle: rad(3.0),
            x_rotation: rad(0.5),
        },
        4,
    );

    do_test(
        &Arc {
            center: p(4.0, 5.0),
            radii: v(3.0, 5.0),
            start_angle: rad(2.0),
            sweep_angle: rad(-3.0),
            x_rotation: rad(1.3),
        },
        4,
    );

    do_test(
        &Arc {
            center: p(0.0, 0.0),
            radii: v(100.0, 0.01),
            start_angle: rad(-1.0),
            sweep_angle: rad(0.1),
            x_rotation: rad(0.3),
        },
        1,
    );

    do_test(
        &Arc {
            center: p(0.0, 0.0),
            radii: v(1.0, 1.0),
            start_angle: rad(3.0),
            sweep_angle: rad(-0.1),
            x_rotation: rad(-0.3),
        },
        1,
    );
}

#[test]
fn samples_of_the_unit_circle() {
    let quarter = unit_arc(0.0, f64::FRAC_PI_2());
    assert_eq!(quarter.from(), p(1.0, 0.0));
    assert!(near_point(quarter.to(), p(0.0, 1.0)));
    let middle = quarter.sample(Num(0.5));
    assert!(near_point(middle, p(0.5f64.sqrt(), 0.5f64.sqrt())));
    assert_eq!(quarter.x(Num(0.5)), middle.x);
    assert_eq!(quarter.y(Num(0.5)), middle.y);
    assert_eq!(quarter.get_angle(Num(0.5)), rad(f64::FRAC_PI_4()));
    assert_eq!(quarter.end_angle(), rad(f64::FRAC_PI_2()));
    assert_eq!(quarter.sample_tangent(Num(0.0)), v(0.0, 1.0));
}

#[test]
fn samples_of_a_turned_ellipse() {
    let arc = Arc {
        center: p(10.0, 20.0),
        radii: v(2.0, 1.0),
        start_angle: rad(0.0),
        sweep_angle: rad(f64::PI()),
        x_rotation: rad(f64::FRAC_PI_2()),
    };
    assert!(near_point(arc.from(), p(10.0, 22.0)));
    assert!(near_point(arc.sample(Num(0.5)), p(9.0, 20.0)));
    assert!(near_point(arc.to(), p(10.0, 18.0)));
    let tangent = arc.sample_tangent(Num(0.0));
    assert!(near(tangent.x, -1.0) && near(tangent.y, 0.0));
}

#[test]
fn samples_satisfy_the_equation_of_the_ellipse() {
    let arc = some_arc();
    for i in 0..11 {
        let q = arc.sample(Num(i as f64 / 10.0)).sub(arc.center).rotate(arc.x_rotation.neg());
        let (x, y) = (q.x.0 / 3.0, q.y.0 / 5.0);
        assert!((x * x + y * y - 1.0).abs() < 1e-9);
    }
}

#[test]
fn splitting_keeps_the_ellipse_and_the_end_points() {
    let arc = some_arc();
    let t = Num(0.3);
    let (before, after) = arc.split(t);
    assert_eq!(before, arc.before_split(t));
    assert_eq!(after, arc.after_split(t));
    assert_eq!(before.start_angle, rad(0.4));
    assert_eq!(before.sweep_angle, rad(-2.5 * 0.3));
    assert_eq!(after.start_angle, before.end_angle());
    assert_eq!(after.sweep_angle, rad(-2.5 - -2.5 * 0.3));
    assert_eq!(after.center, arc.center);
    assert_eq!(after.radii, arc.radii);
    assert_eq!(after.x_rotation, arc.x_rotation);
    assert!(near_point(before.from(), arc.from()));
    assert!(near_point(before.to(), arc.sample(t)));
    assert!(near_point(after.from(), arc.sample(t)));
    assert!(near_point(after.to(), arc.to()));
    assert!(near_point(before.sample(Num(0.5)), arc.sample(Num(0.15))));
    assert!(near_point(after.sample(Num(0.5)), arc.sample(Num(0.65))));
}

#[test]
fn a_range_is_two_splits() {
    let arc = some_arc();
    let part = arc.split_range(Num(0.2)..Num(0.7));
    assert_eq!(part.start_angle, rad(0.4 + -2.5 * 0.2));
    assert_eq!(part.sweep_angle, rad(-2.5 * 0.7 - -2.5 * 0.2));
    let other = arc.after_split(Num(0.2)).before_split(Num(0.5 / 0.8));
    assert!(near(part.start_angle.get(), other.start_angle.get().0));
    assert!(near(part.sweep_angle.get(), other.sweep_angle.get().0));
    let third = arc.before_split(Num(0.7)).after_split(Num(0.2 / 0.7));
    assert!(near(part.start_angle.get(), third.start_angle.get().0));
    assert!(near(part.sweep_angle.get(), third.sweep_angle.get().0));
    assert!(near_point(part.sample(Num(0.5)), arc.sample(Num(0.45))));
    assert_eq!(arc.split_range(Num(0.0)..Num(0.3)).sweep_angle, arc.before_split(Num(0.3)).sweep_angle);
}

#[test]
fn flipping_reverses() {
    let arc = some_arc();
    let back = arc.flip();
    assert_eq!(back.start_angle, rad(0.4 + -2.5));
    assert_eq!(back.sweep_angle, rad(2.5));
    assert_eq!(back.center, arc.center);
    assert!(near_point(back.from(), arc.to()));
    assert!(near_point(back.to(), arc.from()));
    assert!(near_point(back.sample(Num(0.2)), arc.sample(Num(0.8))));
    assert!(near(back.flip().start_angle.get(), 0.4));
    assert_eq!(back.flip().sweep_angle, arc.sweep_angle);
}

#[test]
fn bounding_rect_of_an_upright_ellipse() {
    let arc = Arc { x_rotation: rad(0.0), ..some_arc() };
    let r = arc.bounding_rect();
    assert_eq!(r.origin, p(-2.0, -7.0));
    assert_eq!(r.size.width, Num(6.0));
    assert_eq!(r.size.height, Num(10.0));
    assert_eq!(arc.bounding_range_x(), (Num(-2.0), Num(4.0)));
    assert_eq!(arc.bounding_range_y(), (Num(-7.0), Num(3.0)));
}

#[test]
fn bounding_rect_contains_a_turned_ellipse() {
    let far = Arc {
        center: p(10.0, 0.0),
        radii: v(1.0, 1.0),
        start_angle: rad(0.0),
        sweep_angle: rad(6.0),
        x_rotation: rad(f64::FRAC_PI_2()),
    };
    assert!(near(far.bounding_range_x().0, 9.0));
    assert!(near(far.bounding_range_x().1, 11.0));
    assert!(near(far.bounding_range_y().0, -1.0));
    assert!(near(far.bounding_range_y().1, 1.0));

    for arc in [far, some_arc(), Arc { radii: v(-3.0, 5.0), ..some_arc() }] {
        let r = arc.bounding_rect();
        for i in 0..21 {
            let q = arc.sample(Num(i as f64 / 20.0));
            assert!(r.min_x().0 - 1e-9 <= q.x.0 && q.x.0 <= r.max_x().0 + 1e-9);
            assert!(r.min_y().0 - 1e-9 <= q.y.0 && q.y.0 <= r.max_y().0 + 1e-9);
        }
    }
}

#[test]
fn flags_are_off_by_default() {
    assert_eq!(ArcFlags::default(), ArcFlags { large_arc: false, sweep: false });
}

fn quarter_chord(large_arc: bool, sweep: bool) -> SvgArc<Num<f64>> {
    SvgArc {
        from: p(1.0, 0.0),
        to: p(0.0, 1.0),
        radii: v(1.0, 1.0),
        x_rotation: rad(0.0),
        flags: ArcFlags { large_arc, sweep },
    }
}

#[test]
fn flags_choose_one_of_four_arcs() {
    let half_pi = f64::FRAC_PI_2();
    let cases = [
        (false, true, p(0.0, 0.0), 0.0, half_pi),
        (true, false, p(0.0, 0.0), 0.0, -3.0 * half_pi),
        (false, false, p(1.0, 1.0), 3.0 * half_pi, -half_pi),
        (true, true, p(1.0, 1.0), 3.0 * half_pi, 3.0 * half_pi),
    ];
    for (large_arc, sweep, center, start, angle) in cases {
        let svg = quarter_chord(large_arc, sweep);
        assert!(svg.is_convertible());
        let arc = svg.to_arc();
        assert!(near_point(arc.center, center));
        assert!((arc.start_angle.get().0 - start).sin().abs() < 1e-9);
        assert!((arc.start_angle.get().0 - start).cos() > 0.0);
        assert!(near(arc.sweep_angle.get(), angle));
        assert_eq!(arc.radii, svg.radii);
        assert_eq!(arc.x_rotation, svg.x_rotation);
        assert_eq!(Arc::from_svg_arc(&svg), arc);
        assert_eq!(svg.into(), arc);
    }
}

#[test]
fn svg_arcs_have_their_end_points() {
    for large_arc in [false, true] {
        for sweep in [false, true] {
            let svg = SvgArc {
                from: p(3.0, -1.0),
                to: p(-2.0, 4.0),
                radii: v(5.0, 7.0),
                x_rotation: rad(8.0),
                flags: ArcFlags { large_arc, sweep },
            };
            assert!(svg.is_convertible());
            let arc = svg.to_arc();
            assert!(near_point(arc.from(), svg.from));
            assert!(near_point(arc.to(), svg.to));
            assert_eq!(arc.sweep_angle.get().0 > 0.0, sweep);
            assert_eq!(arc.sweep_angle.get().0.abs() > f64::PI(), large_arc);

            let back = arc.to_svg_arc();
            assert!(near_point(back.from, svg.from));
            assert!(near_point(back.to, svg.to));
            assert_eq!(back.radii, svg.radii);
            assert_eq!(back.x_rotation, svg.x_rotation);
            assert_eq!(back.flags, svg.flags);
        }
    }
}

#[test]
fn arcs_survive_being_given_by_their_end_points() {
    for sweep in [0.3, 2.0, 4.0, 6.0, -0.3, -2.0, -4.0, -6.0] {
        let arc = Arc { sweep_angle: rad(sweep), ..some_arc() };
        let svg = arc.to_svg_arc();
        assert!(svg.is_convertible());
        let back = svg.to_arc();
        assert!(near_point(back.center, arc.center));
        assert!(near(back.sweep_angle.get(), sweep));
        assert!(near(back.start_angle.get(), 0.4));
    }
}

#[test]
fn flags_of_an_arc() {
    let pi = f64::PI();
    let cases = [
        (0.0, false, true),
        (1.0, false, true),
        (pi, true, true),
        (4.0, true, true),
        (-1.0, false, false),
        (-pi, true, false),
        (-4.0, true, false),
    ];
    for (angle, large_arc, sweep) in cases {
        let flags = unit_arc(0.0, angle).to_svg_arc().flags;
        assert_eq!(flags, ArcFlags { large_arc, sweep });
    }
    let svg = unit_arc(0.0, pi).to_svg_arc();
    assert_eq!(svg.from, p(1.0, 0.0));
    assert!(near_point(svg.to, p(-1.0, 0.0)));
}

#[test]
fn an_ellipse_that_does_not_reach_keeps_its_radii() {
    let svg = SvgArc { from: p(-4.0, 0.0), to: p(4.0, 0.0), ..quarter_chord(false, true) };
    let arc = svg.to_arc();
    assert_eq!(arc.radii, v(1.0, 1.0));
    assert!(near(arc.center.x, 0.0));
    assert!(near(arc.center.y.abs(), 15f64.sqrt()));
}

#[test]
fn svg_arcs_that_cannot_be_converted() {
    let good = quarter_chord(false, true);
    assert!(good.is_convertible());
    assert!(!SvgArc { to: good.from, ..good }.is_convertible());
    assert!(!SvgArc { radii: v(0.0, 1.0), ..good }.is_convertible());
    assert!(!SvgArc { radii: v(1.0, 0.0), ..good }.is_convertible());
    assert!(!SvgArc { radii: v(f64::NAN, 1.0), ..good }.is_convertible());
    assert!(!SvgArc { from: p(f64::NAN, 0.0), ..good }.is_convertible());
    assert!(!SvgArc { to: p(0.0, f64::NAN), ..good }.is_convertible());
    assert!(!SvgArc { x_rotation: rad(f64::NAN), ..good }.is_convertible());
    assert!(!SvgArc { radii: v(1e-200, 1e-200), ..good }.is_convertible());
}

#[test]
fn quadratics_are_joined_and_touch_the_ellipse() {
    let arc = some_arc();
    let curves = quadratics(&arc);
    assert_eq!(curves.len(), 4);
    assert!(near_point(curves[0].from, arc.from()));
    assert!(near_point(curves[3].to, arc.to()));
    for i in 0..3 {
        assert_eq!(curves[i].to, curves[i + 1].from);
    }
    for i in 0..4 {
        let (start, end) = (Num(i as f64 / 4.0), Num((i + 1) as f64 / 4.0));
        let first = curves[i].ctrl.sub(curves[i].from).cross(arc.sample_tangent(start));
        let second = curves[i].ctrl.sub(curves[i].to).cross(arc.sample_tangent(end));
        assert!(near(first, 0.0) && near(second, 0.0));
    }
}

#[test]
fn a_quadratic_of_an_eighth_of_the_unit_circle() {
    let curves = quadratics(&unit_arc(0.0, f64::FRAC_PI_4()));
    assert_eq!(curves.len(), 1);
    assert_eq!(curves[0].from, p(1.0, 0.0));
    assert!(near_point(curves[0].ctrl, p(1.0, (f64::PI() / 8.0).tan())));
    assert!(near_point(curves[0].to, p(0.5f64.sqrt(), 0.5f64.sqrt())));
}

#[test]
fn quadratics_are_counted_by_eighths_of_a_turn() {
    assert_eq!(quadratics(&unit_arc(1.0, 0.0)).len(), 0);
    assert_eq!(quadratics(&unit_arc(1.0, 0.8)).len(), 2);
    assert_eq!(quadratics(&unit_arc(1.0, -0.8)).len(), 2);
    assert_eq!(quadratics(&unit_arc(1.0, 6.0)).len(), 8);
    let around = unit_arc(1.0, 20.0);
    let curves = quadratics(&around);
    assert_eq!(curves.len(), 8);
    assert!(near_point(curves[7].to, around.from()));
}

#[test]
fn quadratics_are_appended() {
    let arc = some_arc();
    let mut out = quadratics(&arc);
    arc.for_each_quadratic_bezier(&mut out);
    assert_eq!(out.len(), 8);
    assert_eq!(out[4], out[0]);

    let svg = quarter_chord(false, true);
    let mut curves = Vec::new();
    svg.for_each_quadratic_bezier(&mut curves);
    assert_eq!(curves, quadratics(&svg.to_arc()));
    assert_eq!(curves.len(), 2);
}

#[test]
fn arcs_that_have_no_quadratics() {
    assert!(some_arc().has_quadratics());
    assert!(!Arc { radii: v(1.0, 0.0), ..some_arc() }.has_quadratics());
    assert!(!unit_arc(0.0, 1e-7).has_quadratics());
    assert!(unit_arc(0.0, 0.0).has_quadratics());
}

#[test]
fn flattening_a_circle_takes_one_line() {
    let arc = unit_arc(0.0, 1.0);
    let step = arc.flattening_step(Num(0.1));
    let a = 2.0 * 0.1 * 1.0 - 0.1 * 0.1;
    assert!(near(step, f64::acos(a * a)));
    let mut points = Vec::new();
    arc.for_each_flattened(Num(0.1), &mut points);
    assert_eq!(points, vec![arc.to()]);
    assert!(near(arc.approximate_length(Num(0.1)), 2.0 * 0.5f64.sin()));
}

#[test]
fn flattening_an_ellipse_takes_more_lines() {
    let arc = Arc { radii: v(10.0, 1.0), ..unit_arc(0.0, f64::FRAC_PI_2()) };
    let tolerance = Num(0.15);
    assert!(arc.flattens_within(tolerance, 2));
    assert!(arc.flattens_within(tolerance, 100));
    assert!(!arc.flattens_within(tolerance, 1));
    let mut points = Vec::new();
    arc.for_each_flattened(tolerance, &mut points);
    assert_eq!(points.len(), 3);
    let rest = arc.after_split(arc.flattening_step(tolerance));
    assert_eq!(points[0], rest.from());
    assert!(near_point(points[2], arc.to()));

    let mut iter = arc.flattened(tolerance);
    for q in &points {
        assert_eq!(iter.next(), Some(*q));
    }
    assert_eq!(iter.next(), None);
    assert_eq!(iter.next(), None);

    let mut length = 0.0;
    let mut start = arc.from();
    for q in &points {
        length += q.sub(start).length().0;
        start = *q;
    }
    assert_eq!(arc.approximate_length(tolerance), Num(length));
}

#[test]
fn some_arcs_are_never_flat() {
    assert!(!unit_arc(0.0, 1.0).flattens_within(Num(0.5), 1000));
    assert!(!unit_arc(0.0, 1.0).flattens_within(Num(f64::NAN), 1000));
    assert!(unit_arc(0.0, 1.0).flattens_within(Num(0.1), 0));
}

#[test]
fn tangents_touch_the_ellipse() {
    let arc = some_arc();
    for i in 0..11 {
        let t = Num(i as f64 / 10.0);
        let q = arc.sample(t).sub(arc.center).rotate(arc.x_rotation.neg());
        let w = arc.sample_tangent(t).rotate(arc.x_rotation.neg());
        assert!((q.x.0 * w.x.0 / 9.0 + q.y.0 * w.y.0 / 25.0).abs() < 1e-9);
    }
}

#[test]
fn directed_angles() {
    let (x, y) = (v(1.0, 0.0), v(0.0, 1.0));
    assert!(near(directed_angle(x, y), f64::FRAC_PI_2()));
    assert!(near(directed_angle(y, x), 3.0 * f64::FRAC_PI_2()));
    assert!(near(directed_angle(y, y), 0.0));
    assert!(near(directed_angle(x, v(-1.0, 0.0)), f64::PI()));
}

#[test]
fn lines_meet_or_are_parallel() {
    let a = Line { point: p(0.0, 1.0), vector: v(1.0, 0.0) };
    let b = Line { point: p(3.0, 7.0), vector: v(0.0, 2.0) };
    assert_eq!(a.intersection(&b), Some(p(3.0, 1.0)));
    let c = Line { point: p(5.0, 5.0), vector: v(-2.0, 0.0) };
    assert_eq!(a.intersection(&c), None);
}

#[test]
fn arcs_are_segments() {
    fn through_the_trait<C: Segment<Scalar = Num<f64>>>(curve: C) -> [Point<Num<f64>>; 8] {
        let t = Num(0.25);
        [
            curve.from(),
            curve.to(),
            curve.sample(t),
            point(curve.x(t), curve.y(t)),
            curve.split_range(t..Num(0.5)).from(),
            curve.split(t).1.from(),
            curve.before_split(t).to(),
            curve.flip().from(),
        ]
    }
    let arc = some_arc();
    let seen = through_the_trait(arc);
    assert_eq!(seen[0], arc.from());
    assert_eq!(seen[1], arc.to());
    assert_eq!(seen[2], arc.sample(Num(0.25)));
    assert_eq!(seen[3], seen[2]);
    assert_eq!(seen[4], arc.split_range(Num(0.25)..Num(0.5)).from());
    assert_eq!(seen[5], arc.after_split(Num(0.25)).from());
    assert_eq!(seen[6], arc.before_split(Num(0.25)).to());
    assert_eq!(seen[7], arc.flip().from());
    assert_eq!(Segment::derivative(&arc, Num(0.25)), arc.sample_tangent(Num(0.25)));
    assert_eq!(Segment::after_split(&arc, Num(0.25)), arc.after_split(Num(0.25)));
    let round = unit_arc(0.0, 1.0);
    assert_eq!(Segment::approximate_length(&round, Num(0.1)), round.approximate_length(Num(0.1)));
    assert_eq!(FlatteningStep::flattening_step(&arc, Num(0.1)), arc.flattening_step(Num(0.1)));
}

#[test]
fn arcs_have_bounding_rects() {
    let arc = some_arc();
    assert_eq!(BoundingRect::bounding_rect(&arc), arc.bounding_rect());
    assert_eq!(arc.fast_bounding_rect(), arc.bounding_rect());
    assert_eq!(BoundingRect::bounding_range_x(&arc), arc.bounding_range_x());
    assert_eq!(BoundingRect::bounding_range_y(&arc), arc.bounding_range_y());
    assert_eq!(arc.fast_bounding_range_x(), arc.bounding_range_x());
    assert_eq!(arc.fast_bounding_range_y(), arc.bounding_range_y());
}

#[test]
fn extremes_of_four_numbers() {
    let (a, b, c, d) = (Num(2.0), Num(-1.0), Num(7.0), Num(3.0));
    assert_eq!(least(a, b, c, d), Num(-1.0));
    assert_eq!(greatest(a, b, c, d), Num(7.0));
    assert_eq!(least(d, c, a, b), Num(-1.0));
    assert_eq!(greatest(c, a, b, d), Num(7.0));
}

fn odd_arcs() -> [Arc<Num<f64>>; 5] {
    [
        some_arc(),
        unit_arc(0.1, 0.7),
        unit_arc(-3.3, 1e-17),
        unit_arc(1e300, -1e-300),
        unit_arc(0.0, -0.0),
    ]
}

#[test]
fn zero_and_one_do_not_round() {
    let (zero, one) = (Num(0.0), Num(1.0));
    for arc in odd_arcs() {
        assert_eq!(arc.split_range(zero..one), arc);
        assert_eq!(arc.split_range(one..zero), arc.flip());
        assert_eq!(arc.after_split(zero), arc);
        assert_eq!(arc.before_split(one), arc);
        assert_eq!(arc.get_angle(zero), arc.start_angle);
        assert_eq!(arc.get_angle(one), arc.end_angle());
        let twice = arc.flip().flip();
        assert_eq!(twice.sweep_angle, arc.sweep_angle);
        assert_eq!(Arc { start_angle: arc.start_angle, ..twice }, arc);
        for t in [0.1, 1.0 / 3.0, -2.7, 1e20] {
            assert_eq!(arc.split_range(zero..Num(t)), arc.before_split(Num(t)));
            assert_eq!(arc.split_range(Num(t)..one), arc.after_split(Num(t)));
        }
    }
}

#[test]
fn two_cuts_are_one() {
    let arc = some_arc();
    let twice = arc.after_split(Num(0.25)).after_split(Num(0.5));
    let once = arc.after_split(Num(0.625));
    assert!(near(twice.start_angle.get(), once.start_angle.get().0));
    assert!(near(twice.sweep_angle.get(), once.sweep_angle.get().0));
    let start = arc.before_split(Num(0.25)).before_split(Num(0.5));
    assert!(near(start.sweep_angle.get(), -2.5 * 0.125));
}

#[test]
fn angles_are_linear() {
    let arc = some_arc();
    assert!(near(arc.get_angle(Num(0.25)).get(), 0.75 * 0.4 + 0.25 * arc.end_angle().get().0));
}

#[test]
fn tangents_of_a_circle_are_as_long_as_its_radius() {
    let arc = Arc { radii: v(-2.5, -2.5), ..some_arc() };
    for i in 0..11 {
        let t = Num(i as f64 / 10.0);
        let tangent = arc.sample_tangent(t);
        let radius = arc.sample(t).sub(arc.center);
        assert!(near(tangent.length(), 2.5));
        assert!(near(radius.length(), 2.5));
        assert!((radius.x.0 * tangent.x.0 + radius.y.0 * tangent.y.0).abs() < 1e-9);
    }
}

#[test]
fn tangents_are_derivatives() {
    let arc = some_arc();
    for h in [0.1, 0.01, -0.001] {
        let (t, d) = (0.3, -2.5 * h);
        let step = arc.sample(Num(t + h)).sub(arc.sample(Num(t)));
        let tangent = arc.sample_tangent(Num(t));
        let error = v(step.x.0 - tangent.x.0 * d, step.y.0 - tangent.y.0 * d);
        assert!(error.length().0 <= 34f64.sqrt() * d * d);
    }
    let upright = Arc { x_rotation: rad(0.0), ..some_arc() };
    let tangent = upright.sample_tangent(Num(0.0));
    assert!(near(tangent.x, -3.0 * 0.4f64.sin()));
    assert!(near(tangent.y, 5.0 * 0.4f64.cos()));
}

#[test]
fn quadratics_follow_the_arc() {
    for arc in [some_arc(), unit_arc(0.3, 6.0), unit_arc(2.0, -0.9)] {
        let curves = quadratics(&arc);
        let n = curves.len();
        for i in 0..n {
            let (start, end) = (i as f64 / n as f64, (i + 1) as f64 / n as f64);
            assert!(near_point(curves[i].from, arc.sample(Num(start))));
            assert!(near_point(curves[i].to, arc.sample(Num(end))));
        }
    }
}

#[test]
fn the_first_quadratic_starts_the_arc_without_rounding() {
    for arc in odd_arcs() {
        if !arc.has_quadratics() {
            continue;
        }
        let curves = quadratics(&arc);
        if !curves.is_empty() {
            assert_eq!(curves[0].from, arc.from());
        }
        assert_eq!(quadratics(&arc.flip()).len(), curves.len());
    }
}

#[test]
fn quadratics_of_a_reversed_arc_are_reversed() {
    for arc in [some_arc(), unit_arc(0.3, 6.0), unit_arc(2.0, -0.9), unit_arc(2.0, 0.0)] {
        let (forth, back) = (quadratics(&arc), quadratics(&arc.flip()));
        assert_eq!(forth.len(), back.len());
        for (c, d) in forth.iter().rev().zip(&back) {
            assert!(near_point(d.from, c.to));
            assert!(near_point(d.ctrl, c.ctrl));
            assert!(near_point(d.to, c.from));
        }
    }
}

#[test]
fn quadratics_stop_where_tangents_do_not_meet() {
    let mut curves = Vec::new();
    assert!(arc_to_to_quadratic_beziers(&some_arc(), &mut curves));
    assert_eq!(curves, quadratics(&some_arc()));
    curves.clear();
    assert!(!arc_to_to_quadratic_beziers(&unit_arc(0.0, 1e-7), &mut curves));
    assert!(curves.is_empty());
}

#[test]
fn flattened_points_follow_the_arc() {
    let arc = Arc { radii: v(10.0, 1.0), ..unit_arc(0.0, f64::FRAC_PI_2()) };
    let mut points = Vec::new();
    arc.for_each_flattened(Num(0.15), &mut points);
    let mut angle = 0.0;
    for q in &points {
        let (x, y) = (q.x.0 / 10.0, q.y.0);
        assert!((x * x + y * y - 1.0).abs() < 1e-9);
        assert!(angle < y.atan2(x) && y.atan2(x) <= f64::FRAC_PI_2() + 1e-9);
        angle = y.atan2(x);
    }
    let length = arc.approximate_length(Num(0.15)).0;
    assert!(arc.to().sub(arc.from()).length().0 <= length);
    let n = 1000;
    let mut fine = 0.0;
    for i in 0..n {
        let (s, t) = (i as f64 / n as f64, (i + 1) as f64 / n as f64);
        fine += arc.sample(Num(t)).sub(arc.sample(Num(s))).length().0;
    }
    assert!(length <= fine);
}

#[test]
fn flattening_steps_are_arc_cosines() {
    let arc = Arc { radii: v(4.0, 1.0), ..unit_arc(0.0, 1.0) };
    let a = 2.0 * 0.2 * 4.0 - 0.2 * 0.2;
    let step = arc.flattening_step(Num(0.2)).0;
    assert!(0.0 <= step && step <= f64::FRAC_PI_2());
    assert!((step.cos() - a * a / 4.0).abs() < 1e-9);
    assert_eq!(unit_arc(0.0, 1.0).flattening_step(Num(1.0)), Num(0.0));
    assert!(unit_arc(0.0, 1.0).flattening_step(Num(-1.0)).0.is_nan());
}

#[test]
fn half_turns_come_back_as_large_arcs() {
    let half = SvgArc { to: p(-1.0, 0.0), ..quarter_chord(false, true) };
    let arc = half.to_arc();
    assert!(near(arc.sweep_angle.get(), f64::PI()));
    assert!(near_point(arc.center, p(0.0, 0.0)));
    assert!(near_point(arc.to(), half.to));
    assert_eq!(arc.to_svg_arc().flags, ArcFlags { large_arc: true, sweep: true });
}

#[test]
fn flags_mirror_the_center() {
    let svg = |large_arc, sweep| SvgArc {
        from: p(3.0, -1.0),
        to: p(-2.0, 4.0),
        radii: v(5.0, 7.0),
        x_rotation: rad(0.8),
        flags: ArcFlags { large_arc, sweep },
    };
    for (large_arc, sweep) in [(false, false), (false, true), (true, false), (true, true)] {
        let arc = svg(large_arc, sweep).to_arc();
        assert_eq!(svg(!large_arc, !sweep).to_arc().center, arc.center);
        let mirrored = svg(!large_arc, sweep).to_arc().center;
        assert_eq!(svg(large_arc, !sweep).to_arc().center, mirrored);
        assert!(near(mirrored.x, 1.0 - arc.center.x.0));
        assert!(near(mirrored.y, 3.0 - arc.center.y.0));

        let forth = svg(large_arc, !sweep);
        let back = SvgArc { from: forth.to, to: forth.from, ..forth }.to_arc();
        assert!(near_point(back.center, arc.center));
        assert!(near(back.sweep_angle.get(), -arc.sweep_angle.get().0));
        assert!(near_point(back.from(), arc.to()));
        assert!(near_point(back.sample(Num(0.3)), arc.sample(Num(0.7))));
    }
}
