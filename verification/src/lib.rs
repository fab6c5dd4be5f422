//! Elliptic-curve arithmetic over prime fields: short Weierstrass curves,
//! point validation, the chord-and-tangent group law, scalar multiplication
//! (binary double-and-add and a Montgomery ladder), and point compression.
//!
//! Arbitrary-precision integers come from `num_bigint`; every operation on
//! them is reached through a small trusted layer in `bignum`, and all curve
//! logic is verified against a ghost model of curves and points.

pub mod arith;
pub mod bignum;
pub mod curve;
pub mod point;
pub mod utils;
pub mod laws;
