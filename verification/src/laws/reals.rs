//! Facts about real numbers.
use crate::scalar;
use vstd::prelude::*;

verus! {

/// A quotient times its divisor is its dividend.
pub proof fn lemma_quotient(x: real, d: real)
    requires
        d != 0real,
    ensures
        x / d * d == x,
        d * (x / d) == x,
{
    assert(x / d * d == x && d * (x / d) == x) by (nonlinear_arith)
        requires
            d != 0real,
    ;
}

/// Multiplying by a positive number keeps the order.
pub proof fn lemma_scale_order(x: real, y: real, d: real)
    requires
        x < y,
        d > 0real,
    ensures
        x * d < y * d,
{
    assert(x * d < y * d) by (nonlinear_arith)
        requires
            x < y,
            d > 0real,
    ;
}

/// Once a number is that number.
pub proof fn lemma_one_multiple(d: real)
    ensures
        scalar::multiple(0, d) == 0real,
        scalar::multiple(1, d) == d,
        scalar::multiple(-1, d) == -d,
{
    assert(0int as real * d == 0real && 1int as real * d == d && -1int as real * d == -d)
        by (nonlinear_arith);
}

/// Products of sums, term by term.
pub proof fn lemma_expand(p: real, q: real, r: real, t: real)
    ensures
        (p + q) * (r + t) == p * r + p * t + q * r + q * t,
        (p + q) * (r - t) == p * r - p * t + q * r - q * t,
        (p - q) * (r + t) == p * r + p * t - q * r - q * t,
        (p - q) * (r - t) == p * r - p * t - q * r + q * t,
{
    assert((p + q) * (r + t) == p * r + p * t + q * r + q * t) by (nonlinear_arith);
    assert((p + q) * (r - t) == p * r - p * t + q * r - q * t) by (nonlinear_arith);
    assert((p - q) * (r + t) == p * r + p * t - q * r - q * t) by (nonlinear_arith);
    assert((p - q) * (r - t) == p * r - p * t - q * r + q * t) by (nonlinear_arith);
}

/// A number times a sum, term by term.
pub proof fn lemma_distribute(a: real, b: real, c: real)
    ensures
        a * (b + c) == a * b + a * c,
        a * (b - c) == a * b - a * c,
        (b + c) * a == b * a + c * a,
        (b - c) * a == b * a - c * a,
{
    assert(a * (b + c) == a * b + a * c && a * (b - c) == a * b - a * c) by (nonlinear_arith);
    assert((b + c) * a == b * a + c * a && (b - c) * a == b * a - c * a) by (nonlinear_arith);
}

/// The factors of a product of products, paired anew.
pub proof fn lemma_pair(a: real, b: real, c: real, d: real)
    ensures
        (a * b) * (c * d) == (a * c) * (b * d),
{
    assert((a * b) * (c * d) == (a * c) * (b * d)) by (nonlinear_arith);
}

/// A product over one of its factors is the other.
pub proof fn lemma_cancel(x: real, d: real)
    requires
        d != 0real,
    ensures
        x * d / d == x,
        d * x / d == x,
{
    assert(x * d / d == x && d * x / d == x) by (nonlinear_arith)
        requires
            d != 0real,
    ;
}

/// A square is not negative, and zero only of zero.
pub proof fn lemma_square(x: real)
    ensures
        x * x >= 0real,
        x * x == 0real <==> x == 0real,
{
    assert(x * x >= 0real) by (nonlinear_arith);
    assert(x * x == 0real ==> x == 0real) by (nonlinear_arith);
}

/// A product is zero only if a factor is.
pub proof fn lemma_nonzero_product(x: real, y: real)
    requires
        x != 0real,
        y != 0real,
    ensures
        x * y != 0real,
{
    assert(x * y != 0real) by (nonlinear_arith)
        requires
            x != 0real,
            y != 0real,
    ;
}

/// A rotation keeps cross products.
pub proof fn lemma_rotation_keeps_cross(
    x1: real,
    y1: real,
    x2: real,
    y2: real,
    cos: real,
    sin: real,
)
    requires
        sin * sin + cos * cos == 1real,
    ensures
        (x1 * cos - y1 * sin) * (y2 * cos + x2 * sin) - (y1 * cos + x1 * sin) * (x2 * cos - y2
            * sin) == x1 * y2 - y1 * x2,
{
    let (a, b) = (x1 * y2, y1 * x2);
    lemma_expand(x1 * cos, y1 * sin, y2 * cos, x2 * sin);
    lemma_expand(y1 * cos, x1 * sin, x2 * cos, y2 * sin);
    lemma_pair(x1, cos, y2, cos);
    lemma_pair(x1, cos, x2, sin);
    lemma_pair(y1, sin, y2, cos);
    lemma_pair(y1, sin, x2, sin);
    lemma_pair(y1, cos, x2, cos);
    lemma_pair(y1, cos, y2, sin);
    lemma_pair(x1, sin, x2, cos);
    lemma_pair(x1, sin, y2, sin);
    assert(sin * cos == cos * sin);
    lemma_distribute(a, sin * sin, cos * cos);
    lemma_distribute(b, sin * sin, cos * cos);
}

/// A rotation keeps dot products.
pub proof fn lemma_rotation_keeps_dot(
    x1: real,
    y1: real,
    x2: real,
    y2: real,
    cos: real,
    sin: real,
)
    requires
        sin * sin + cos * cos == 1real,
    ensures
        (x1 * cos - y1 * sin) * (x2 * cos - y2 * sin) + (y1 * cos + x1 * sin) * (y2 * cos + x2
            * sin) == x1 * x2 + y1 * y2,
{
    let (a, b) = (x1 * x2, y1 * y2);
    lemma_expand(x1 * cos, y1 * sin, x2 * cos, y2 * sin);
    lemma_expand(y1 * cos, x1 * sin, y2 * cos, x2 * sin);
    lemma_pair(x1, cos, x2, cos);
    lemma_pair(x1, cos, y2, sin);
    lemma_pair(y1, sin, x2, cos);
    lemma_pair(y1, sin, y2, sin);
    lemma_pair(y1, cos, y2, cos);
    lemma_pair(y1, cos, x2, sin);
    lemma_pair(x1, sin, y2, cos);
    lemma_pair(x1, sin, x2, sin);
    assert(sin * cos == cos * sin);
    lemma_distribute(a, sin * sin, cos * cos);
    lemma_distribute(b, sin * sin, cos * cos);
}

/// Turning a vector back undoes turning it.
pub proof fn lemma_turn_back(x: real, y: real, cos: real, sin: real)
    requires
        sin * sin + cos * cos == 1real,
    ensures
        (cos * x + sin * y) * cos - (-sin * x + cos * y) * sin == x,
        (-sin * x + cos * y) * cos + (cos * x + sin * y) * sin == y,
{
    assert(-sin * x == -(sin * x)) by (nonlinear_arith);
    lemma_distribute(cos, cos * x, sin * y);
    lemma_distribute(sin, cos * x, sin * y);
    lemma_distribute(cos, cos * y, sin * x);
    lemma_distribute(sin, cos * y, sin * x);
    assert(cos * x * cos == cos * cos * x && sin * x * sin == sin * sin * x) by (nonlinear_arith);
    assert(cos * y * cos == cos * cos * y && sin * y * sin == sin * sin * y) by (nonlinear_arith);
    assert(sin * y * cos == cos * y * sin && sin * x * cos == cos * x * sin) by (nonlinear_arith);
    lemma_distribute(x, sin * sin, cos * cos);
    lemma_distribute(y, sin * sin, cos * cos);
}

/// Turning a vector undoes turning it back.
pub proof fn lemma_turn_forth(x: real, y: real, cos: real, sin: real)
    requires
        sin * sin + cos * cos == 1real,
    ensures
        cos * (x * cos - y * sin) + sin * (y * cos + x * sin) == x,
        -sin * (x * cos - y * sin) + cos * (y * cos + x * sin) == y,
{
    let (u, v) = (x * cos - y * sin, y * cos + x * sin);
    assert(-sin * u == -(sin * u)) by (nonlinear_arith);
    lemma_distribute(cos, x * cos, y * sin);
    lemma_distribute(sin, x * cos, y * sin);
    lemma_distribute(cos, y * cos, x * sin);
    lemma_distribute(sin, y * cos, x * sin);
    assert(cos * (x * cos) == cos * cos * x && sin * (x * sin) == sin * sin * x)
        by (nonlinear_arith);
    assert(cos * (y * cos) == cos * cos * y && sin * (y * sin) == sin * sin * y)
        by (nonlinear_arith);
    assert(cos * (y * sin) == sin * (y * cos) && cos * (x * sin) == sin * (x * cos))
        by (nonlinear_arith);
    lemma_distribute(x, sin * sin, cos * cos);
    lemma_distribute(y, sin * sin, cos * cos);
}

/// Half the sum and half the difference of two unit vectors are at a right angle, and their
/// squares add up to one.
pub proof fn lemma_half_sums(x: real, y: real, mx: real, my: real)
    requires
        (mx + x) * (mx + x) + (my + y) * (my + y) == 1real,
        (mx - x) * (mx - x) + (my - y) * (my - y) == 1real,
    ensures
        x * mx + y * my == 0real,
        x * x + y * y + (mx * mx + my * my) == 1real,
        (mx + x) * (my - y) - (my + y) * (mx - x) == 2real * (x * my - y * mx),
{
    lemma_expand(mx, x, mx, x);
    lemma_expand(my, y, my, y);
    lemma_expand(mx, x, my, y);
    lemma_expand(my, y, mx, x);
    assert(mx * x == x * mx && my * y == y * my && mx * my == my * mx && mx * y == y * mx && my * x
        == x * my && x * y == y * x);
}

/// The cross product and the dot product of two vectors, squared, give their lengths.
pub proof fn lemma_lagrange(x: real, y: real, u: real, v: real)
    ensures
        (x * v - y * u) * (x * v - y * u) + (x * u + y * v) * (x * u + y * v) == (x * x + y * y)
            * (u * u + v * v),
{
    lemma_expand(x * v, y * u, x * v, y * u);
    lemma_expand(x * u, y * v, x * u, y * v);
    lemma_expand(x * x, y * y, u * u, v * v);
    lemma_pair(x, v, x, v);
    lemma_pair(y, u, y, u);
    lemma_pair(x, u, x, u);
    lemma_pair(y, v, y, v);
    lemma_pair(x, v, y, u);
    lemma_pair(y, u, x, v);
    lemma_pair(x, u, y, v);
    lemma_pair(y, v, x, u);
    assert(v * u == u * v && y * x == x * y);
}

/// A vector at a right angle to `(x, y)` is a multiple of its turn by a quarter.
pub proof fn lemma_right_angle(x: real, y: real, mx: real, my: real, f: real)
    requires
        x * mx + y * my == 0real,
        f * (x * x + y * y) == x * my - y * mx,
        x * x + y * y > 0real,
    ensures
        f * x == my,
        f * y == -mx,
{
    let n = x * x + y * y;
    let q = x * my - y * mx;
    assert(n * (f * x) == x * (f * n)) by (nonlinear_arith);
    assert(n * (f * y) == y * (f * n)) by (nonlinear_arith);
    lemma_distribute(x, x * my, y * mx);
    lemma_distribute(y, x * my, y * mx);
    assert(x * (y * mx) == y * (x * mx) && y * (x * my) == x * (y * my)) by (nonlinear_arith);
    assert(x * (x * my) == x * x * my && y * (y * mx) == y * y * mx) by (nonlinear_arith);
    let (dx, dy) = (x * mx, y * my);
    assert(y * dx == -(y * dy)) by (nonlinear_arith)
        requires
            dx == -dy,
    ;
    assert(x * dy == -(x * dx)) by (nonlinear_arith)
        requires
            dx == -dy,
    ;
    assert(y * (y * my) == y * y * my && x * (x * mx) == x * x * mx) by (nonlinear_arith);
    lemma_distribute(my, x * x, y * y);
    lemma_distribute(mx, x * x, y * y);
    assert(n * (f * x) == n * my);
    assert(n * -mx == -(n * mx)) by (nonlinear_arith);
    assert(n * (f * y) == n * -mx);
    lemma_cancel(f * x, n);
    lemma_cancel(my, n);
    lemma_cancel(f * y, n);
    lemma_cancel(-mx, n);
}

/// Numbers of one sign with the same square are equal.
pub proof fn lemma_same_square(u: real, v: real)
    requires
        u * u == v * v,
        u >= 0real && v >= 0real || u <= 0real && v <= 0real,
    ensures
        u == v,
{
    assert(u == v) by (nonlinear_arith)
        requires
            u * u == v * v,
            u >= 0real && v >= 0real || u <= 0real && v <= 0real,
    ;
}

/// Multiples add up, and a positive number of them is at least one.
pub proof fn lemma_multiples(j: int, k: int, d: real)
    ensures
        scalar::multiple(j, d) + scalar::multiple(k, d) == scalar::multiple(j + k, d),
        scalar::multiple(j, d) - scalar::multiple(k, d) == scalar::multiple(j - k, d),
        k >= 1 && d >= 0real ==> scalar::multiple(k, d) >= d,
        k <= -1 && d >= 0real ==> scalar::multiple(k, d) <= -d,
{
    let (a, b) = (j as real, k as real);
    assert((j + k) as real == a + b && (j - k) as real == a - b);
    lemma_distribute(d, a, b);
    if d >= 0real {
        if k >= 1 {
            assert(b * d >= d) by (nonlinear_arith)
                requires
                    b >= 1real,
                    d >= 0real,
            ;
        }
        if k <= -1 {
            assert(b * d <= -d) by (nonlinear_arith)
                requires
                    b <= -1real,
                    d >= 0real,
            ;
        }
    }
}

/// A quotient of a number that is not negative.
pub proof fn lemma_ratio(x: real, d: real)
    requires
        0real <= x <= d,
        d > 0real,
    ensures
        0real <= x / d <= 1real,
        x < d ==> x / d < 1real,
{
    let q = x / d;
    lemma_quotient(x, d);
    if q < 0real {
        lemma_scale_order(q, 0real, d);
        assert(0real * d == 0real) by (nonlinear_arith);
    }
    if q > 1real {
        lemma_scale_order(1real, q, d);
    }
}

/// Going part of the way to one stays below one, and gets nearer.
pub proof fn lemma_part_of_the_way(t: real, u: real)
    requires
        t < 1real,
        0real < u < 1real,
    ensures
        t < t + (1real - t) * u < 1real,
{
    let left = 1real - t;
    lemma_scale_order(0real, u, left);
    lemma_scale_order(u, 1real, left);
    assert(0real * left == 0real && u * left == left * u && 1real * left == left)
        by (nonlinear_arith);
}

/// The distance is at most that over a detour.
///
/// The numbers `a`, `b` and `c` are the lengths of two vectors and of their sum.
pub proof fn lemma_triangle(x: real, y: real, u: real, v: real, a: real, b: real, c: real)
    requires
        a >= 0real,
        b >= 0real,
        c >= 0real,
        a * a == x * x + y * y,
        b * b == u * u + v * v,
        c * c == (x + u) * (x + u) + (y + v) * (y + v),
    ensures
        c <= a + b,
{
    let dot = x * u + y * v;
    let cross = x * v - y * u;
    lemma_lagrange(x, y, u, v);
    lemma_square(cross);
    lemma_pair(a, a, b, b);
    let ab = a * b;
    assert((a * a) * (b * b) == ab * ab);
    assert(dot * dot <= ab * ab);
    lemma_nonnegative_product(a, b);
    if dot > ab {
        assert(dot * dot > ab * ab) by (nonlinear_arith)
            requires
                dot > ab,
                ab >= 0real,
        ;
    }
    lemma_expand(x, u, x, u);
    lemma_expand(y, v, y, v);
    lemma_expand(a, b, a, b);
    assert(u * x == x * u && v * y == y * v && b * a == a * b);
    let sum = a + b;
    assert(c * c <= sum * sum);
    if c > sum {
        assert(c * c > sum * sum) by (nonlinear_arith)
            requires
                c > sum,
                sum >= 0real,
        ;
    }
}

/// Multiplying by a number that is not negative keeps the order.
pub proof fn lemma_scale(d: real, x: real, y: real)
    requires
        d >= 0real,
        x <= y,
    ensures
        d * x <= d * y,
{
    assert(d * x <= d * y) by (nonlinear_arith)
        requires
            d >= 0real,
            x <= y,
    ;
}

/// A product of numbers that are not negative is not negative.
pub proof fn lemma_nonnegative_product(a: real, b: real)
    requires
        a >= 0real,
        b >= 0real,
    ensures
        a * b >= 0real,
{
    assert(a * b >= 0real) by (nonlinear_arith)
        requires
            a >= 0real,
            b >= 0real,
    ;
}

/// A number within a bound has a square within the square of the bound.
pub proof fn lemma_bounded_square(x: real, bound: real)
    requires
        -bound <= x <= bound,
    ensures
        x * x <= bound * bound,
{
    if x >= 0real {
        lemma_scale(x, x, bound);
        lemma_scale(bound, x, bound);
        assert(x * bound == bound * x) by (nonlinear_arith);
    } else {
        let y = -x;
        lemma_scale(y, y, bound);
        lemma_scale(bound, y, bound);
        assert(y * bound == bound * y) by (nonlinear_arith);
        assert(-x * -x == x * x) by (nonlinear_arith);
    }
}

/// A combination of two small numbers, by the coordinates of a unit vector, is small.
pub proof fn lemma_small_sum(c: real, s: real, x: real, y: real, half: real)
    requires
        s * s + c * c == 1real,
        -half <= x <= half,
        -half <= y <= half,
    ensures
        (c * x - s * y) * (c * x - s * y) <= half * half + half * half,
{
    lemma_lagrange(c, s, y, x);
    lemma_square(c * y + s * x);
    lemma_bounded_square(x, half);
    lemma_bounded_square(y, half);
    let (unit, squares) = (c * c + s * s, y * y + x * x);
    assert(unit * squares == squares) by (nonlinear_arith)
        requires
            unit == 1real,
    ;
}

/// Cramer's rule: the solution lies on both lines.
pub proof fn lemma_cramer(
    a: real,
    b: real,
    vx: real,
    vy: real,
    wx: real,
    wy: real,
    inverse: real,
)
    requires
        inverse * (vx * wy - vy * wx) == 1real,
    ensures
        (b * vx - a * wx) * inverse * vy - (b * vy - a * wy) * inverse * vx == a,
        (b * vx - a * wx) * inverse * wy - (b * vy - a * wy) * inverse * wx == b,
{
    let (x, y) = (b * vx - a * wx, b * vy - a * wy);
    lemma_combine(x, vy, y, vx, inverse);
    lemma_combine(x, wy, y, wx, inverse);

    lemma_distribute(vy, b * vx, a * wx);
    lemma_distribute(vx, b * vy, a * wy);
    lemma_distribute(wy, b * vx, a * wx);
    lemma_distribute(wx, b * vy, a * wy);
    lemma_pair(b, vx, 1real, vy);
    lemma_pair(b, vy, 1real, vx);
    lemma_pair(a, wx, 1real, vy);
    lemma_pair(a, wy, 1real, vx);
    lemma_pair(b, vx, 1real, wy);
    lemma_pair(b, vy, 1real, wx);
    lemma_pair(a, wx, 1real, wy);
    lemma_pair(a, wy, 1real, wx);
    let det = vx * wy - vy * wx;
    lemma_distribute(a, vx * wy, vy * wx);
    lemma_distribute(b, vx * wy, vy * wx);
    assert(x * vy - y * vx == a * det);
    assert(x * wy - y * wx == b * det);
    lemma_pair(a, det, 1real, inverse);
    lemma_pair(b, det, 1real, inverse);
}

/// Two products with a common factor.
proof fn lemma_combine(x: real, u: real, y: real, v: real, f: real)
    ensures
        x * f * u - y * f * v == (x * u - y * v) * f,
{
    lemma_distribute(f, x * u, y * v);
    assert(x * f * u == x * u * f) by (nonlinear_arith);
    assert(y * f * v == y * v * f) by (nonlinear_arith);
}

} // verus!
