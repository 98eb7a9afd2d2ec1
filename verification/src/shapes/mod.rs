//! Geometric primitives and their bounding volumes.
pub mod bounding_volume;
pub mod cube;
pub mod plane;
pub mod shape;
pub mod sphere;
pub mod utils;
