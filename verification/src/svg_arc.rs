//! Arcs given by their end points.
use crate::arc::Arc;
use crate::laws::svg;
use crate::math::{point, vector, Angle, Point, Vector};
use crate::scalar;
use crate::scalar::Scalar;
use crate::utils;
use vstd::prelude::*;

verus! {

/// An elliptic arc, given by its end points as SVG paths give it.
#[derive(Copy, Clone, Debug, PartialEq)]
pub struct SvgArc<S> {
    pub from: Point<S>,
    pub to: Point<S>,
    pub radii: Vector<S>,
    pub x_rotation: Angle<S>,
    pub flags: ArcFlags,
}

/// Which of the four arcs between two points of an ellipse is meant, as in SVG paths.
///
/// `large_arc` asks for an arc of half a turn or more, `sweep` for one that runs
/// in the direction of growing angles.
#[derive(Copy, Clone, Debug, PartialEq, Eq, Structural)]
pub struct ArcFlags {
    pub large_arc: bool,
    pub sweep: bool,
}

impl Default for ArcFlags {
    fn default() -> (r: ArcFlags)
        ensures
            !r.large_arc,
            !r.sweep,
    {
        ArcFlags { large_arc: false, sweep: false }
    }
}

impl<S: Scalar> SvgArc<S> {
    /// The rotation of the ellipse, within one turn.
    pub open spec fn axis_angle(self) -> S {
        self.x_rotation.radians.spec_rem(scalar::full_turn())
    }

    /// Half the vector from `to` to `from`, in the axes of the ellipse.
    pub open spec fn half_chord(self) -> Vector<S> {
        let cos = self.axis_angle().spec_cos();
        let sin = self.axis_angle().spec_sin();
        let x = (self.from.x - self.to.x) / S::spec_two();
        let y = (self.from.y - self.to.y) / S::spec_two();
        Vector { x: cos * x + sin * y, y: -sin * x + cos * y }
    }

    /// The point halfway between the end points.
    pub open spec fn midpoint(self) -> Point<S> {
        Point {
            x: (self.from.x + self.to.x) / S::spec_two(),
            y: (self.from.y + self.to.y) / S::spec_two(),
        }
    }

    /// The square of the half chord, scaled by the radii crosswise.
    pub open spec fn chord_measure(self) -> S {
        let u = self.radii.x * self.half_chord().y;
        let v = self.radii.y * self.half_chord().x;
        u * u + v * v
    }

    /// How far the center is from the chord, relative to the chord, and on which side.
    pub open spec fn center_factor(self) -> S {
        let rr = self.radii.x * self.radii.y;
        let sign = if self.flags.large_arc == self.flags.sweep {
            -S::spec_one()
        } else {
            S::spec_one()
        };
        sign * ((rr * rr - self.chord_measure()) / self.chord_measure()).spec_abs().spec_sqrt()
    }

    /// The center of the ellipse, from the midpoint of the chord, in the axes of the ellipse.
    pub open spec fn local_center(self) -> Vector<S> {
        let h = self.half_chord();
        Vector {
            x: self.center_factor() * (self.radii.x * h.y) / self.radii.y,
            y: -self.center_factor() * (self.radii.y * h.x) / self.radii.x,
        }
    }

    /// The center of the ellipse.
    pub open spec fn spec_center(self) -> Point<S> {
        let cos = self.axis_angle().spec_cos();
        let sin = self.axis_angle().spec_sin();
        let c = self.local_center();
        Point {
            x: cos * c.x - sin * c.y + self.midpoint().x,
            y: sin * c.x + cos * c.y + self.midpoint().y,
        }
    }

    /// The direction from the center to `from`, on the circle that the ellipse is drawn from.
    pub open spec fn start_direction(self) -> Vector<S> {
        let (h, c) = (self.half_chord(), self.local_center());
        Vector { x: (h.x - c.x) / self.radii.x, y: (h.y - c.y) / self.radii.y }
    }

    /// The direction from the center to `to`, on the circle that the ellipse is drawn from.
    pub open spec fn end_direction(self) -> Vector<S> {
        let (h, c) = (self.half_chord(), self.local_center());
        Vector { x: (-h.x - c.x) / self.radii.x, y: (-h.y - c.y) / self.radii.y }
    }

    /// The angle that the arc covers, in the direction that the flags ask for.
    pub open spec fn spec_sweep_angle(self) -> S {
        let (start, end) = (self.start_direction(), self.end_direction());
        if self.flags.sweep {
            S::spec_one() * utils::spec_directed_angle(start, end).spec_abs().spec_rem(
                scalar::full_turn(),
            )
        } else {
            -S::spec_one() * utils::spec_directed_angle(end, start).spec_abs().spec_rem(
                scalar::full_turn(),
            )
        }
    }

    /// The same arc, given by its center.
    pub open spec fn spec_to_arc(self) -> Arc<S> {
        let x_axis = Vector { x: S::spec_one(), y: S::spec_zero() };
        Arc {
            center: self.spec_center(),
            radii: self.radii,
            start_angle: Angle {
                radians: utils::spec_directed_angle(x_axis, self.start_direction()),
            },
            sweep_angle: Angle { radians: self.spec_sweep_angle() },
            x_rotation: self.x_rotation,
        }
    }

    /// The ellipse is large enough to pass through both end points.
    pub open spec fn reaches(self) -> bool {
        let rr = self.radii.x * self.radii.y;
        self.chord_measure() <= rr * rr
    }

    /// The ellipse is just large enough: its center is halfway between the end points.
    pub open spec fn is_half_turn(self) -> bool {
        let rr = self.radii.x * self.radii.y;
        self.chord_measure() == rr * rr
    }

    /// The same end points and ellipse, with other flags.
    pub open spec fn with_flags(self, large_arc: bool, sweep: bool) -> SvgArc<S> {
        SvgArc { flags: ArcFlags { large_arc, sweep }, ..self }
    }

    /// The same arc from its end to its start.
    pub open spec fn backward(self) -> SvgArc<S> {
        SvgArc {
            from: self.to,
            to: self.from,
            ..self.with_flags(self.flags.large_arc, !self.flags.sweep)
        }
    }

    /// The end points differ, the radii are not zero, the chord is not so short that its
    /// measure vanishes, and all of them are numbers.
    pub open spec fn spec_is_convertible(self) -> bool {
        &&& !self.from.x.spec_is_nan()
        &&& !self.from.y.spec_is_nan()
        &&& !self.to.x.spec_is_nan()
        &&& !self.to.y.spec_is_nan()
        &&& !self.radii.x.spec_is_nan()
        &&& !self.radii.y.spec_is_nan()
        &&& !self.x_rotation.radians.spec_is_nan()
        &&& !self.from.spec_equals(self.to)
        &&& !self.radii.x.spec_equals(S::spec_zero())
        &&& !self.radii.y.spec_equals(S::spec_zero())
        &&& !self.chord_measure().spec_equals(S::spec_zero())
    }

    /// Whether the end points differ, the radii are not zero, the chord is not so short that
    /// its measure vanishes, and all of them are numbers.
    pub fn is_convertible(&self) -> (r: bool)
        ensures
            r == self.spec_is_convertible(),
    {
        let xr = self.x_rotation.get().rem(S::two().mul(S::pi()));
        let cos_phi = xr.cos();
        let sin_phi = xr.sin();
        let hd_x = self.from.x.sub(self.to.x).div(S::two());
        let hd_y = self.from.y.sub(self.to.y).div(S::two());
        let u = self.radii.x.mul(sin_phi.neg().mul(hd_x).add(cos_phi.mul(hd_y)));
        let v = self.radii.y.mul(cos_phi.mul(hd_x).add(sin_phi.mul(hd_y)));

        !self.from.x.is_nan() && !self.from.y.is_nan() && !self.to.x.is_nan()
            && !self.to.y.is_nan() && !self.radii.x.is_nan() && !self.radii.y.is_nan()
            && !self.x_rotation.get().is_nan() && !self.from.equals(self.to)
            && !self.radii.x.equals(S::zero()) && !self.radii.y.equals(S::zero())
            && !u.mul(u).add(v.mul(v)).equals(S::zero())
    }

    /// The same arc, given by its center.
    pub fn to_arc(&self) -> (r: Arc<S>)
        requires
            self.spec_is_convertible(),
        ensures
            r == self.spec_to_arc(),
    {
        Arc::from_svg_arc(self)
    }

    /// The same arc, given by its center.
    pub fn into(self) -> (r: Arc<S>)
        requires
            self.spec_is_convertible(),
        ensures
            r == self.spec_to_arc(),
    {
        self.to_arc()
    }
}

impl<S: Scalar> Arc<S> {
    /// The same arc, given by its end points.
    pub open spec fn spec_to_svg_arc(self) -> SvgArc<S> {
        SvgArc {
            from: self.spec_from(),
            to: self.spec_to(),
            radii: self.radii,
            x_rotation: self.x_rotation,
            flags: ArcFlags {
                large_arc: self.sweep_angle.radians.spec_abs() >= S::spec_pi(),
                sweep: self.sweep_angle.radians >= S::spec_zero(),
            },
        }
    }

    /// The arc with these end points, given by its center.
    ///
    /// It runs from the first to the second if its ellipse is large enough to reach both.
    pub fn from_svg_arc(arc: &SvgArc<S>) -> (r: Arc<S>)
        requires
            arc.spec_is_convertible(),
        ensures
            r == arc.spec_to_arc(),
            scalar::exact::<S>() && arc.reaches() ==> r.spec_from() == arc.from && r.spec_to()
                == arc.to,
    {
        proof {
            if scalar::exact::<S>() && arc.reaches() {
                svg::law_svg_arc_has_its_end_points(*arc);
            }
        }
        let rx = arc.radii.x;
        let ry = arc.radii.y;

        let xr = arc.x_rotation.get().rem(S::two().mul(S::pi()));
        let cos_phi = xr.cos();
        let sin_phi = xr.sin();
        let hd_x = arc.from.x.sub(arc.to.x).div(S::two());
        let hd_y = arc.from.y.sub(arc.to.y).div(S::two());
        let hs_x = arc.from.x.add(arc.to.x).div(S::two());
        let hs_y = arc.from.y.add(arc.to.y).div(S::two());
        let p = vector(
            cos_phi.mul(hd_x).add(sin_phi.mul(hd_y)),
            sin_phi.neg().mul(hd_x).add(cos_phi.mul(hd_y)),
        );

        let rxry = rx.mul(ry);
        let rxpy = rx.mul(p.y);
        let rypx = ry.mul(p.x);
        let sum_of_sq = rxpy.mul(rxpy).add(rypx.mul(rypx));

        let sign_coe = if arc.flags.large_arc == arc.flags.sweep {
            S::one().neg()
        } else {
            S::one()
        };
        let coe = sign_coe.mul(rxry.mul(rxry).sub(sum_of_sq).div(sum_of_sq).abs().sqrt());

        let transformed_cx = coe.mul(rxpy).div(ry);
        let transformed_cy = coe.neg().mul(rypx).div(rx);

        let center = point(
            cos_phi.mul(transformed_cx).sub(sin_phi.mul(transformed_cy)).add(hs_x),
            sin_phi.mul(transformed_cx).add(cos_phi.mul(transformed_cy)).add(hs_y),
        );

        let start = vector(p.x.sub(transformed_cx).div(rx), p.y.sub(transformed_cy).div(ry));
        let end = vector(
            p.x.neg().sub(transformed_cx).div(rx),
            p.y.neg().sub(transformed_cy).div(ry),
        );

        let start_angle = Angle::radians(
            utils::directed_angle(vector(S::one(), S::zero()), start),
        );

        let sweep = if arc.flags.sweep {
            S::one().mul(utils::directed_angle(start, end).abs().rem(S::two().mul(S::pi())))
        } else {
            S::one().neg().mul(
                utils::directed_angle(end, start).abs().rem(S::two().mul(S::pi())),
            )
        };

        Arc {
            center,
            radii: arc.radii,
            start_angle,
            sweep_angle: Angle::radians(sweep),
            x_rotation: arc.x_rotation,
        }
    }

    /// The same arc, given by its end points.
    pub fn to_svg_arc(&self) -> (r: SvgArc<S>)
        ensures
            r == self.spec_to_svg_arc(),
    {
        let from = self.sample(S::zero());
        let to = self.sample(S::one());
        let flags = ArcFlags {
            large_arc: self.sweep_angle.get().abs().ge(S::pi()),
            sweep: self.sweep_angle.get().ge(S::zero()),
        };
        SvgArc { from, to, radii: self.radii, x_rotation: self.x_rotation, flags }
    }
}

} // verus!
