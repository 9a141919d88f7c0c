//! Core numeric kernels and cone-composition layer of a primal-dual
//! interior-point solver for convex conic optimization.
//!
//! The crate provides three layers, leaves first:
//! dense vector reductions and transforms over an exact scalar type
//! ([`scalar`], [`vector`]), compressed-sparse-column matrix kernels
//! ([`sparse`]), and the cone capability contract with its composite
//! dispatcher ([`cones`], [`composite`]).

pub mod scalar;
pub mod vector;
pub mod sparse;
pub mod cones;
pub mod composite;
