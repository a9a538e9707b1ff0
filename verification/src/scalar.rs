//! The numbers that arcs are made of.
//!
//! An arc is generic over its scalar type. [`Scalar`] lists the operations that
//! the geometry needs, each tied to a function of its operands, so that the contracts
//! of this crate can say which combination of operations a result is.
//!
//! Machine numbers round. Where a property holds only of numbers that do not,
//! it is stated for [`exact`] scalars: those that compute as the real numbers do. Zero and one
//! round nothing in most arithmetic: see [`has_exact_sums`] and [`has_exact_multiples`].
use vstd::prelude::*;

verus! {

/// A number type to do geometry with.
///
/// Every operation is a function of its operands: the same operands give the
/// same result, where all results that are not numbers count as one. Nothing else is
/// asked of an implementation. In contracts, `a + b`, `a - b`, `a * b`, `a / b`, `-a`,
/// `a < b`, `a <= b`, `a > b` and `a >= b` stand for the results of the operations
/// below, rounding included.
///
/// The contracts speak of a type only once the functions that they are stated over, from
/// [`value`](Scalar::value) to [`spec_from_i32`](Scalar::spec_from_i32), are defined for it:
/// the bodies given here define nothing, and only let a type that is not verified, such as
/// one of floating point numbers, implement the operations alone. Of such a type the
/// contracts hold for those functions that its operations compute.
pub trait Scalar: Copy {
    /// The real number that this scalar stands for.
    ///
    /// Only [`exact`] relates it to the operations.
    closed spec fn value(self) -> real {
        arbitrary()
    }

    /// The number 0.
    closed spec fn spec_zero() -> Self {
        arbitrary()
    }

    /// The number 1.
    closed spec fn spec_one() -> Self {
        arbitrary()
    }

    /// The number 2.
    closed spec fn spec_two() -> Self {
        arbitrary()
    }

    /// Half a turn, in radians.
    closed spec fn spec_pi() -> Self {
        arbitrary()
    }

    /// An eighth of a turn, in radians.
    closed spec fn spec_frac_pi_4() -> Self {
        arbitrary()
    }

    /// The magnitude up to which a determinant counts as zero.
    closed spec fn spec_epsilon() -> Self {
        arbitrary()
    }

    /// The sum, `self + rhs`.
    closed spec fn spec_add(self, rhs: Self) -> Self {
        arbitrary()
    }

    /// The difference, `self - rhs`.
    closed spec fn spec_sub(self, rhs: Self) -> Self {
        arbitrary()
    }

    /// The product, `self * rhs`.
    closed spec fn spec_mul(self, rhs: Self) -> Self {
        arbitrary()
    }

    /// The quotient, `self / rhs`.
    closed spec fn spec_euclidean_or_real_div(self, rhs: Self) -> Self {
        arbitrary()
    }

    /// The remainder of the division that rounds toward zero.
    closed spec fn spec_rem(self, rhs: Self) -> Self {
        arbitrary()
    }

    /// The negation, `-self`.
    closed spec fn spec_neg(self) -> Self {
        arbitrary()
    }

    /// The comparison `self < rhs`.
    closed spec fn spec_lt(self, rhs: Self) -> bool {
        arbitrary()
    }

    /// The comparison `self <= rhs`.
    closed spec fn spec_le(self, rhs: Self) -> bool {
        arbitrary()
    }

    /// The comparison `self > rhs`.
    closed spec fn spec_gt(self, rhs: Self) -> bool {
        arbitrary()
    }

    /// The comparison `self >= rhs`.
    closed spec fn spec_ge(self, rhs: Self) -> bool {
        arbitrary()
    }

    /// Numeric equality, which need not be identity: zero may have two signs.
    closed spec fn spec_equals(self, rhs: Self) -> bool {
        arbitrary()
    }

    /// This is not a number.
    closed spec fn spec_is_nan(self) -> bool {
        arbitrary()
    }

    /// The absolute value.
    closed spec fn spec_abs(self) -> Self {
        arbitrary()
    }

    /// One, with the sign of this number.
    closed spec fn spec_signum(self) -> Self {
        arbitrary()
    }

    /// The lesser of two numbers.
    closed spec fn spec_min(self, rhs: Self) -> Self {
        arbitrary()
    }

    /// The least integer that is not below this number.
    closed spec fn spec_ceil(self) -> Self {
        arbitrary()
    }

    /// The square root.
    closed spec fn spec_sqrt(self) -> Self {
        arbitrary()
    }

    /// The sine of an angle in radians.
    closed spec fn spec_sin(self) -> Self {
        arbitrary()
    }

    /// The cosine of an angle in radians.
    closed spec fn spec_cos(self) -> Self {
        arbitrary()
    }

    /// The angle whose cosine this is.
    closed spec fn spec_acos(self) -> Self {
        arbitrary()
    }

    /// The direction of the vector `(x, self)`, measured from the x axis.
    closed spec fn spec_atan2(self, x: Self) -> Self {
        arbitrary()
    }

    /// This number as an integer, if it fits in one.
    closed spec fn spec_to_i32(self) -> Option<i32> {
        arbitrary()
    }

    /// An integer as a number.
    closed spec fn spec_from_i32(n: i32) -> Self {
        arbitrary()
    }

    /// The number 0.
    fn zero() -> (r: Self)
        ensures
            r == Self::spec_zero(),
    ;

    /// The number 1.
    fn one() -> (r: Self)
        ensures
            r == Self::spec_one(),
    ;

    /// The number 2.
    fn two() -> (r: Self)
        ensures
            r == Self::spec_two(),
    ;

    /// Half a turn, in radians.
    fn pi() -> (r: Self)
        ensures
            r == Self::spec_pi(),
    ;

    /// An eighth of a turn, in radians.
    fn frac_pi_4() -> (r: Self)
        ensures
            r == Self::spec_frac_pi_4(),
    ;

    /// The magnitude up to which a determinant counts as zero.
    fn epsilon() -> (r: Self)
        ensures
            r == Self::spec_epsilon(),
    ;

    /// The sum.
    fn add(self, rhs: Self) -> (r: Self)
        ensures
            r == self + rhs,
    ;

    /// The difference.
    fn sub(self, rhs: Self) -> (r: Self)
        ensures
            r == self - rhs,
    ;

    /// The product.
    fn mul(self, rhs: Self) -> (r: Self)
        ensures
            r == self * rhs,
    ;

    /// The quotient. A division by zero has a result too.
    fn div(self, rhs: Self) -> (r: Self)
        ensures
            r == self / rhs,
    ;

    /// The remainder of the division that rounds toward zero.
    fn rem(self, rhs: Self) -> (r: Self)
        ensures
            r == self.spec_rem(rhs),
    ;

    /// The negation.
    fn neg(self) -> (r: Self)
        ensures
            r == -self,
    ;

    /// Whether this is less than `rhs`.
    fn lt(self, rhs: Self) -> (r: bool)
        ensures
            r == (self < rhs),
    ;

    /// Whether this is at most `rhs`.
    fn le(self, rhs: Self) -> (r: bool)
        ensures
            r == (self <= rhs),
    ;

    /// Whether this is greater than `rhs`.
    fn gt(self, rhs: Self) -> (r: bool)
        ensures
            r == (self > rhs),
    ;

    /// Whether this is at least `rhs`.
    fn ge(self, rhs: Self) -> (r: bool)
        ensures
            r == (self >= rhs),
    ;

    /// Whether this and `rhs` are the same number.
    fn equals(self, rhs: Self) -> (r: bool)
        ensures
            r == self.spec_equals(rhs),
    ;

    /// Whether this is not a number.
    fn is_nan(self) -> (r: bool)
        ensures
            r == self.spec_is_nan(),
    ;

    /// The absolute value.
    fn abs(self) -> (r: Self)
        ensures
            r == self.spec_abs(),
    ;

    /// One, with the sign of this number.
    fn signum(self) -> (r: Self)
        ensures
            r == self.spec_signum(),
    ;

    /// The lesser of two numbers.
    fn min(self, rhs: Self) -> (r: Self)
        ensures
            r == self.spec_min(rhs),
    ;

    /// The least integer that is not below this number.
    fn ceil(self) -> (r: Self)
        ensures
            r == self.spec_ceil(),
    ;

    /// The square root.
    fn sqrt(self) -> (r: Self)
        ensures
            r == self.spec_sqrt(),
    ;

    /// The sine of an angle in radians.
    fn sin(self) -> (r: Self)
        ensures
            r == self.spec_sin(),
    ;

    /// The cosine of an angle in radians.
    fn cos(self) -> (r: Self)
        ensures
            r == self.spec_cos(),
    ;

    /// The angle whose cosine this is.
    fn acos(self) -> (r: Self)
        ensures
            r == self.spec_acos(),
    ;

    /// The angle from the x axis to the vector `(x, self)`.
    fn atan2(self, x: Self) -> (r: Self)
        ensures
            r == self.spec_atan2(x),
    ;

    /// This number as an integer, if it fits in one.
    fn to_i32(self) -> (r: Option<i32>)
        ensures
            r == self.spec_to_i32(),
    ;

    /// An integer as a number.
    fn from_i32(n: i32) -> (r: Self)
        ensures
            r == Self::spec_from_i32(n),
    ;
}

/// The lesser of two scalars: `a` unless `b` is below it.
pub open spec fn spec_lesser<S: Scalar>(a: S, b: S) -> S {
    if b < a {
        b
    } else {
        a
    }
}

/// The greater of two scalars: `a` unless `b` is above it.
pub open spec fn spec_greater<S: Scalar>(a: S, b: S) -> S {
    if b > a {
        b
    } else {
        a
    }
}

/// The least of four scalars, the earliest on a tie.
pub open spec fn spec_least<S: Scalar>(a: S, b: S, c: S, d: S) -> S {
    spec_lesser(spec_lesser(spec_lesser(a, b), c), d)
}

/// The greatest of four scalars, the earliest on a tie.
pub open spec fn spec_greatest<S: Scalar>(a: S, b: S, c: S, d: S) -> S {
    spec_greater(spec_greater(spec_greater(a, b), c), d)
}

/// The least of four scalars.
pub fn least<S: Scalar>(a: S, b: S, c: S, d: S) -> (r: S)
    ensures
        r == spec_least(a, b, c, d),
{
    let mut low = a;
    if b.lt(low) {
        low = b;
    }
    if c.lt(low) {
        low = c;
    }
    if d.lt(low) {
        low = d;
    }
    low
}

/// The greatest of four scalars.
pub fn greatest<S: Scalar>(a: S, b: S, c: S, d: S) -> (r: S)
    ensures
        r == spec_greatest(a, b, c, d),
{
    let mut high = a;
    if b.gt(high) {
        high = b;
    }
    if c.gt(high) {
        high = c;
    }
    if d.gt(high) {
        high = d;
    }
    high
}

/// A full turn, in radians.
pub open spec fn full_turn<S: Scalar>() -> S {
    S::spec_two() * S::spec_pi()
}

/// Two scalars stand for the same real number.
pub open spec fn same_value<S: Scalar>(a: S, b: S) -> bool {
    a.value() == b.value()
}

/// Two angles differ by `turns` full turns.
pub open spec fn turned_by<S: Scalar>(a: S, b: S, turns: int) -> bool {
    a.value() == b.value() + multiple(turns, 2real * S::spec_pi().value())
}

/// Multiplying `a` by zero or by one does not round, nor does negating it twice.
///
/// This holds of every floating point number that is finite.
pub open spec fn has_exact_multiples<S: Scalar>(a: S) -> bool {
    &&& (a * S::spec_zero()).spec_equals(S::spec_zero())
    &&& a * S::spec_one() == a
    &&& -(-a) == a
}

/// Adding zero to `a`, taking zero away from it or it from zero does not round. Zero may
/// have two signs.
///
/// This holds of every floating point number that is a number.
pub open spec fn has_exact_sums<S: Scalar>(a: S) -> bool {
    &&& forall|zero: S|
        #[trigger] zero.spec_equals(S::spec_zero()) ==> (a + zero).spec_equals(a)
    &&& forall|zero: S|
        #[trigger] zero.spec_equals(S::spec_zero()) ==> (a - zero).spec_equals(a)
    &&& forall|zero: S|
        #[trigger] zero.spec_equals(S::spec_zero()) ==> (zero - a).spec_equals(-a)
}

/// Arithmetic that does not round.
pub open spec fn exact_arithmetic<S: Scalar>() -> bool {
    &&& forall|a: S, b: S| #[trigger] same_value(a, b) ==> a == b
    &&& S::spec_zero().value() == 0real
    &&& S::spec_one().value() == 1real
    &&& S::spec_two().value() == 2real
    &&& forall|a: S, b: S| (#[trigger] (a + b)).value() == a.value() + b.value()
    &&& forall|a: S, b: S| (#[trigger] (a - b)).value() == a.value() - b.value()
    &&& forall|a: S, b: S| (#[trigger] (a * b)).value() == a.value() * b.value()
    &&& forall|a: S, b: S|
        b.value() != 0real ==> (#[trigger] (a / b)).value() == a.value() / b.value()
    &&& forall|a: S| (#[trigger] (-a)).value() == -a.value()
    &&& forall|a: S|
        a.value() >= 0real ==> (#[trigger] a.spec_sqrt()).value() >= 0real
            && a.spec_sqrt().value() * a.spec_sqrt().value() == a.value()
}

/// Comparisons of the numbers that scalars stand for.
pub open spec fn exact_order<S: Scalar>() -> bool {
    &&& forall|a: S, b: S| #[trigger] (a < b) == (a.value() < b.value())
    &&& forall|a: S, b: S| #[trigger] (a <= b) == (a.value() <= b.value())
    &&& forall|a: S, b: S| #[trigger] (a > b) == (a.value() > b.value())
    &&& forall|a: S, b: S| #[trigger] (a >= b) == (a.value() >= b.value())
    &&& forall|a: S, b: S| #[trigger] a.spec_equals(b) == (a.value() == b.value())
    &&& forall|a: S| !#[trigger] a.spec_is_nan()
    &&& forall|a: S|
        (#[trigger] a.spec_abs()).value() == if a.value() < 0real {
            -a.value()
        } else {
            a.value()
        }
    &&& forall|a: S| a.value() > 0real ==> (#[trigger] a.spec_signum()).value() == 1real
    &&& forall|a: S| a.value() < 0real ==> (#[trigger] a.spec_signum()).value() == -1real
    &&& forall|a: S, b: S|
        (#[trigger] a.spec_min(b)).value() == if a.value() < b.value() {
            a.value()
        } else {
            b.value()
        }
    &&& S::spec_epsilon().value() >= 0real
}

/// Conversions between scalars and integers that lose nothing.
pub open spec fn exact_integers<S: Scalar>() -> bool {
    &&& forall|a: S| ceiling(a.value(), (#[trigger] a.spec_ceil()).value())
    &&& forall|a: S|
        is_integer(a.value()) && i32::MIN <= a.value().floor() <= i32::MAX ==> (
        #[trigger] a.spec_to_i32()) == Some(a.value().floor() as i32)
    &&& forall|n: i32| (#[trigger] S::spec_from_i32(n)).value() == n as real
    &&& forall|a: S, b: S|
        b.value() > 0real ==> truncated_remainder(
            a.value(),
            b.value(),
            (#[trigger] a.spec_rem(b)).value(),
        )
}

/// `x` has no fractional part.
pub open spec fn is_integer(x: real) -> bool {
    x == x.floor() as real
}

/// `c` is the least integer that is not below `x`.
pub open spec fn ceiling(x: real, c: real) -> bool {
    &&& x <= c < x + 1real
    &&& is_integer(c)
}

/// `r` is what is left of `x` after taking away a whole number of `d`, toward zero.
pub open spec fn truncated_remainder(x: real, d: real, r: real) -> bool {
    &&& -d < r < d
    &&& x >= 0real ==> r >= 0real
    &&& x <= 0real ==> r <= 0real
    &&& exists|k: int| x == r + #[trigger] multiple(k, d)
}

/// `k` times `d`.
pub open spec fn multiple(k: int, d: real) -> real {
    k as real * d
}

/// Trigonometry that does not round.
///
/// The arc cosine is an angle from zero to half a turn, also of numbers that are the cosine
/// of no angle.
pub open spec fn exact_trigonometry<S: Scalar>() -> bool {
    &&& 3real < S::spec_pi().value() < 4real
    &&& S::spec_frac_pi_4().value() == S::spec_pi().value() / 4real
    &&& forall|a: S|
        #![trigger a.spec_sin()]
        #![trigger a.spec_cos()]
        a.spec_sin().value() * a.spec_sin().value() + a.spec_cos().value() * a.spec_cos().value()
            == 1real
    &&& forall|a: S, b: S, turns: int| #[trigger]
        turned_by(a, b, turns) ==> a.spec_sin() == b.spec_sin() && a.spec_cos() == b.spec_cos()
    &&& forall|a: S, b: S|
        (#[trigger] (a - b).spec_sin()).value() == a.spec_sin().value() * b.spec_cos().value()
            - a.spec_cos().value() * b.spec_sin().value()
    &&& forall|a: S, b: S|
        (#[trigger] (a - b).spec_cos()).value() == a.spec_cos().value() * b.spec_cos().value()
            + a.spec_sin().value() * b.spec_sin().value()
    &&& S::spec_pi().spec_cos().value() == -1real
    &&& forall|a: S|
        0real < a.value() < S::spec_pi().value() ==> (#[trigger] a.spec_sin()).value() > 0real
    &&& forall|a: S|
        S::spec_pi().value() < a.value() < 2real * S::spec_pi().value() ==> (
        #[trigger] a.spec_sin()).value() < 0real
    &&& forall|a: S|
        a.value() >= 0real ==> a.value() - a.value() * a.value() / 2real <= (
        #[trigger] a.spec_sin()).value() <= a.value()
    &&& forall|x: S| 0real <= (#[trigger] x.spec_acos()).value() <= S::spec_pi().value()
    &&& forall|x: S|
        -1real <= x.value() <= 1real ==> (#[trigger] x.spec_acos()).spec_cos() == x
    &&& forall|x: S, y: S|
        x.value() != 0real || y.value() != 0real ==> #[trigger] direction_of(
            x,
            y,
            y.spec_atan2(x),
        )
    &&& forall|x: S, y: S|
        x.value() > 0real && y.value() == 0real ==> (#[trigger] y.spec_atan2(x)).value() == 0real
}

/// `angle` is the direction of the vector `(x, y)`, within half a turn of the x axis.
pub open spec fn direction_of<S: Scalar>(x: S, y: S, angle: S) -> bool {
    &&& -S::spec_pi().value() < angle.value() <= S::spec_pi().value()
    &&& exists|length: real| #[trigger] is_polar_form(length, angle, x, y)
}

/// The vector `(x, y)` has this length and this direction.
pub open spec fn is_polar_form<S: Scalar>(length: real, angle: S, x: S, y: S) -> bool {
    &&& length > 0real
    &&& length * angle.spec_cos().value() == x.value()
    &&& length * angle.spec_sin().value() == y.value()
}

/// The scalars compute as the real numbers do.
pub open spec fn exact<S: Scalar>() -> bool {
    &&& exact_arithmetic::<S>()
    &&& exact_order::<S>()
    &&& exact_integers::<S>()
    &&& exact_trigonometry::<S>()
}

} // verus!
