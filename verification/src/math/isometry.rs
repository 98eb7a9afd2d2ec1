//! Rigid placements: a rotation followed by a translation.
use vstd::prelude::*;
use crate::math::quaternion::Quaternion;
use crate::math::scalar::Scalar;
use crate::math::vector::Vector3;

verus! {

/// Where a shape stands in the world: it is turned by `rotation` about its
/// own origin, then moved by `translation`.
#[derive(Clone, Copy, Debug, PartialEq, Eq, Structural)]
pub struct Isometry3 {
    pub translation: Vector3,
    pub rotation: Quaternion,
}

impl Isometry3 {
    pub open spec fn new_spec(translation: Vector3, rotation: Quaternion) -> Isometry3 {
        Isometry3 { translation, rotation }
    }

    /// The placement with the given parts.
    #[verifier::when_used_as_spec(new_spec)]
    pub fn new(translation: Vector3, rotation: Quaternion) -> (r: Isometry3)
        ensures
            r == Isometry3::new_spec(translation, rotation),
    {
        Isometry3 { translation, rotation }
    }

    pub open spec fn translation_spec(x: Scalar, y: Scalar, z: Scalar) -> Isometry3 {
        Isometry3 { translation: Vector3::new(x, y, z), rotation: Quaternion::identity() }
    }

    /// The placement that moves by `(x, y, z)` and does not rotate.
    #[verifier::when_used_as_spec(translation_spec)]
    pub fn translation(x: Scalar, y: Scalar, z: Scalar) -> (r: Isometry3)
        ensures
            r == Isometry3::translation_spec(x, y, z),
    {
        Isometry3 { translation: Vector3::new(x, y, z), rotation: Quaternion::identity() }
    }

    pub open spec fn identity_spec() -> Isometry3 {
        Isometry3 { translation: Vector3::zero(), rotation: Quaternion::identity() }
    }

    /// The placement that changes nothing.
    #[verifier::when_used_as_spec(identity_spec)]
    pub fn identity() -> (r: Isometry3)
        ensures
            r == Isometry3::identity_spec(),
    {
        Isometry3 { translation: Vector3::zero(), rotation: Quaternion::identity() }
    }
}

} // verus!
