//! Exact geometric primitives and collision routines for a 3D, grid-aligned
//! (voxel) world: a fixed-point vector type, an axis-aligned bounding box
//! (AABB) with a single-face segment intersection routine, and a voxel-grid
//! ray traversal (3D DDA).
//!
//! Coordinates are held as fixed-point integers (`SCALE` units per block),
//! and derived quantities (plane crossings, hit distances, traversal
//! parameters) as exact rationals, so every routine is verified against an
//! exact mathematical statement of its result.

pub mod vec3;
pub mod rat;
pub mod hit;
pub mod aabb;
pub mod ray;
