//! Angles between vectors.
use crate::math::Vector;
use crate::scalar;
use crate::scalar::Scalar;
use vstd::prelude::*;

verus! {

/// The angle of the turn from `v1` to `v2`, brought up by a full turn if it is negative.
pub open spec fn spec_directed_angle<S: Scalar>(v1: Vector<S>, v2: Vector<S>) -> S {
    let angle = v2.y.spec_atan2(v2.x) - v1.y.spec_atan2(v1.x);
    if angle < S::spec_zero() {
        angle + scalar::full_turn::<S>()
    } else {
        angle
    }
}

/// The angle of the turn from `v1` to `v2`, in the direction from the x axis
/// toward the y axis: a quarter turn from `(1, 0)` to `(0, 1)`, three quarters back.
pub fn directed_angle<S: Scalar>(v1: Vector<S>, v2: Vector<S>) -> (r: S)
    ensures
        r == spec_directed_angle(v1, v2),
{
    let angle = v2.y.atan2(v2.x).sub(v1.y.atan2(v1.x));
    if angle.lt(S::zero()) {
        angle.add(S::two().mul(S::pi()))
    } else {
        angle
    }
}

} // verus!
