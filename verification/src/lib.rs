//! Seeded simplex noise: the integer core.
//!
//! A noise field is fixed by a 64-bit seed. From the seed the crate derives a
//! permutation of the byte values and a table of gradient slots. A lattice
//! point is hashed through the permutation to pick one of a fixed set of
//! integer gradient vectors, and a query point receives contributions from
//! the lattice points within reach of its cell. Everything here is integer
//! arithmetic and is verified; summing the contributions in floating point is
//! left to the caller.

pub mod context;
pub mod gradients;
pub mod lattice;
pub mod permutation;

pub use crate::context::OsnContext;
