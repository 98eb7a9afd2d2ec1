//! Numbers and the linear algebra built on them.
pub mod isometry;
pub mod matrix;
pub mod quaternion;
pub mod scalar;
pub mod vector;
