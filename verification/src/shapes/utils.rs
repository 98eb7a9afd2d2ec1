//! Change of frame for directions.
use vstd::prelude::*;
use crate::math::isometry::Isometry3;
use crate::math::vector::Vector3;

verus! {

/// What a placement does to a direction.
pub trait IsometryOperations {
    /// The direction `vector` of the local frame, seen from the world.
    spec fn global_vector_spec(&self, vector: &Vector3) -> Vector3;

    /// Takes a direction from the local frame to the world frame. Only the
    /// rotation acts on it.
    fn global_vector(&self, vector: &Vector3) -> (r: Vector3)
        ensures
            r == self.global_vector_spec(vector),
    ;
}

impl IsometryOperations for Isometry3 {
    open spec fn global_vector_spec(&self, vector: &Vector3) -> Vector3 {
        self.rotation.rotate(*vector)
    }

    fn global_vector(&self, vector: &Vector3) -> (r: Vector3) {
        self.rotation.rotate(*vector)
    }
}

} // verus!
