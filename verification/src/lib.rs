//! Elliptic arcs: sampling, splitting, bounding and approximating them, and converting
//! between the two ways to give one, by its center or by its end points.
//!
//! [`arc::Arc`] and [`svg_arc::SvgArc`] are generic over the number type of their
//! coordinates, [`scalar::Scalar`]. [`laws`] states what holds of arcs as a whole.

pub mod arc;
pub mod flattening;
pub mod laws;
pub mod line;
pub mod math;
pub mod quadratic_bezier;
pub mod scalar;
pub mod segment;
pub mod svg_arc;
pub mod to_quadratics;
pub mod utils;
