//! Laws of arcs as curves.
use crate::arc::Arc;
use crate::flattening;
use crate::scalar::Scalar;
use crate::segment::{BoundingRect, FlatteningStep, Segment};
use vstd::prelude::*;

verus! {

/// As a curve, an arc is sampled as it is as an arc.
pub proof fn law_points_of_the_curve<S: Scalar>(arc: Arc<S>, t: S)
    ensures
        arc.point_at_start() == arc.spec_sample(S::spec_zero()),
        arc.point_at_end() == arc.spec_sample(S::spec_one()),
        arc.point_at_parameter(t) == arc.spec_sample(t),
        arc.derivative_at(t) == arc.spec_tangent_at_angle(arc.spec_get_angle(t)),
{
}

/// As a curve, an arc is split and reversed as it is as an arc.
pub proof fn law_parts_of_the_curve<S: Scalar>(arc: Arc<S>, s: S, t: S)
    ensures
        arc.part(s, t) == arc.spec_split_range(s, t),
        arc.part_before(t) == arc.spec_before_split(t),
        arc.part_after(t) == arc.spec_after_split(t),
        arc.reversed() == arc.spec_flip(),
{
}

/// As a curve, an arc has the bounding rectangle, the steps and the length of the arc.
pub proof fn law_measures_of_the_curve<S: Scalar>(arc: Arc<S>, tolerance: S)
    ensures
        arc.tight_box() == arc.spec_bounding_rect(),
        arc.fast_box() == arc.spec_bounding_rect(),
        arc.line_reach(tolerance) == arc.spec_flattening_step(tolerance),
        arc.has_length(tolerance) <==> arc.flattens(tolerance),
        arc.length_within(tolerance) == flattening::polyline_length(
            arc.spec_sample(S::spec_zero()),
            arc.spec_flattened(tolerance),
        ),
{
}

} // verus!
