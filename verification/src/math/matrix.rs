//! Three-by-three matrices over [`Scalar`], stored by rows.
use vstd::prelude::*;
use crate::math::scalar::Scalar;
use crate::math::vector::Vector3;

verus! {

/// A matrix with rows `r0`, `r1` and `r2`.
#[derive(Clone, Copy, Debug, PartialEq, Eq, Structural)]
pub struct Matrix3 {
    pub r0: Vector3,
    pub r1: Vector3,
    pub r2: Vector3,
}

impl Matrix3 {
    pub open spec fn zeros_spec() -> Matrix3 {
        Matrix3 { r0: Vector3::zero(), r1: Vector3::zero(), r2: Vector3::zero() }
    }

    /// The zero matrix.
    #[verifier::when_used_as_spec(zeros_spec)]
    pub fn zeros() -> (r: Matrix3)
        ensures
            r == Matrix3::zeros_spec(),
    {
        Matrix3 { r0: Vector3::zero(), r1: Vector3::zero(), r2: Vector3::zero() }
    }

    pub open spec fn from_diagonal_spec(d: Vector3) -> Matrix3 {
        Matrix3 {
            r0: Vector3::new(d.x, Scalar::zero(), Scalar::zero()),
            r1: Vector3::new(Scalar::zero(), d.y, Scalar::zero()),
            r2: Vector3::new(Scalar::zero(), Scalar::zero(), d.z),
        }
    }

    /// The diagonal matrix with `d` on its diagonal.
    #[verifier::when_used_as_spec(from_diagonal_spec)]
    pub fn from_diagonal(d: Vector3) -> (r: Matrix3)
        ensures
            r == Matrix3::from_diagonal_spec(d),
    {
        Matrix3 {
            r0: Vector3::new(d.x, Scalar::zero(), Scalar::zero()),
            r1: Vector3::new(Scalar::zero(), d.y, Scalar::zero()),
            r2: Vector3::new(Scalar::zero(), Scalar::zero(), d.z),
        }
    }

    pub open spec fn abs_spec(self) -> Matrix3 {
        Matrix3 { r0: self.r0.abs(), r1: self.r1.abs(), r2: self.r2.abs() }
    }

    /// Entrywise absolute value.
    #[verifier::when_used_as_spec(abs_spec)]
    pub fn abs(self) -> (r: Matrix3)
        ensures
            r == self.abs_spec(),
    {
        Matrix3 { r0: self.r0.abs(), r1: self.r1.abs(), r2: self.r2.abs() }
    }

    pub open spec fn mul_vec_spec(self, v: Vector3) -> Vector3 {
        Vector3 { x: self.r0.dot(v), y: self.r1.dot(v), z: self.r2.dot(v) }
    }

    /// The matrix applied to the column vector `v`.
    #[verifier::when_used_as_spec(mul_vec_spec)]
    pub fn mul_vec(self, v: Vector3) -> (r: Vector3)
        ensures
            r == self.mul_vec_spec(v),
    {
        Vector3 { x: self.r0.dot(v), y: self.r1.dot(v), z: self.r2.dot(v) }
    }
}

} // verus!
