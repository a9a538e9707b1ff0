//! Lengths of vectors.
use crate::laws::reals;
use crate::math::Vector;
use crate::scalar;
use crate::scalar::Scalar;
use vstd::prelude::*;

verus! {

/// The length of a vector, squared.
pub proof fn lemma_length<S: Scalar>(v: Vector<S>)
    requires
        scalar::exact::<S>(),
    ensures
        v.spec_length().value() >= 0real,
        v.spec_length().value() * v.spec_length().value() == v.x.value() * v.x.value()
            + v.y.value() * v.y.value(),
{
    reals::lemma_square(v.x.value());
    reals::lemma_square(v.y.value());
    assert((v.x * v.x + v.y * v.y).value() >= 0real);
}

} // verus!
