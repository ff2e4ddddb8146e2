//! Points of a short Weierstrass curve `y² = x³ + a·x + b` over a coordinate
//! type with its own arithmetic, and their addition under the group law.
//!
//! `point` holds the types and the two operations, `curve` what the
//! operations compute, `lifting` how an integer becomes a coordinate, `field`
//! what makes a set of coordinates a field, and `laws` what follows for the
//! group law; `intersection` carries the algebra behind the laws, and
//! `integers` the law of the sum for coordinates that compute with integers.

pub mod curve;
pub mod field;
pub mod integers;
pub mod intersection;
pub mod laws;
pub mod lifting;
pub mod point;
