# elliptic_arc

Elliptic arcs in Verus: sampling, splitting, reversing, bounding, flattening, approximation by
quadratic Bezier curves, and conversion between arcs given by their center and arcs given by
their end points as in SVG paths.

The library is generic over its number type. Every contract says which combination of
operations of that type a result is, so it holds of numbers that round as well. The laws of
the geometry (that the parts of a split meet, that a bounding rectangle contains the curve,
that an arc passes through its end points, that its approximations follow it) are proved for
numbers that compute as the real numbers do. What multiplying by zero and one and adding zero
do not round is proved for numbers that round as well.

- `src/scalar.rs`: the number type, and what it means for one to be exact
- `src/math.rs`, `src/line.rs`, `src/quadratic_bezier.rs`, `src/utils.rs`: the plane
- `src/arc.rs`: arcs given by their center
- `src/svg_arc.rs`: arcs given by their end points
- `src/to_quadratics.rs`, `src/flattening.rs`: approximations of arcs
- `src/segment.rs`: what curves have in common
- `src/laws/`: what holds of arcs as a whole
- `app/`: floating point numbers, callbacks, iterators and storage
