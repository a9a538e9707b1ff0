//! What holds of arcs as a whole.
//!
//! Where a law asks for [`exact`](crate::scalar::exact) scalars, it speaks of arcs whose
//! numbers do not round.

pub(crate) mod angles;
pub mod bounds;
pub mod ellipse;
pub(crate) mod ellipse_frame;
pub mod flattening;
pub(crate) mod lengths;
pub mod lines;
pub mod plane;
pub mod quadratics;
pub(crate) mod reals;
pub mod segments;
pub mod splitting;
pub mod svg;
pub mod svg_and_back;
