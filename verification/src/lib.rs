//! Tessellation core for a 3D globe viewer: polygon rings given in fixed-point
//! micro-degrees are clipped against a unit-degree grid, triangulated, and
//! emitted as locally indexed mesh fragments that a consumer merges into one
//! global buffer. Vector-tile features are decoded and mapped into the same
//! coordinate space.

pub mod coords;
pub mod mesh;
pub mod clip;
pub mod tess;
pub mod sphere;
pub mod tile;
pub mod stream;
