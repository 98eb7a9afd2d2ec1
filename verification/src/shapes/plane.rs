//! The unbounded plane.
use vstd::prelude::*;
use crate::math::isometry::Isometry3;
use crate::math::scalar::{isqrt, Scalar, SCALE};
use crate::math::vector::{lemma_normalize_nearly_unit, Vector3};
use crate::shapes::bounding_volume::{BoundingSphere, AABB};

verus! {

/// Half of the largest raw count: how far the volumes around a plane reach.
/// They stand for "everywhere", and twice this still does not saturate.
pub const HALF_MAX_RAW: i64 = 0x3fff_ffff_ffff_ffff;

/// A plane through the origin of its own frame, given by its normal.
#[derive(Clone, Copy, Debug, PartialEq, Eq, Structural)]
pub struct Plane {
    pub normal: Vector3,
}

impl Plane {
    /// The normal is of unit length, up to the rounding of a normalisation.
    pub open spec fn wf(self) -> bool {
        self.normal.nearly_unit()
    }

    pub open spec fn new_spec(normal: Vector3) -> Plane {
        Plane { normal }
    }

    /// The plane with the given normal, which the caller has brought to
    /// unit length.
    #[verifier::when_used_as_spec(new_spec)]
    pub fn new(normal: Vector3) -> (r: Plane)
        ensures
            r == Plane::new_spec(normal),
    {
        Plane { normal }
    }

    pub open spec fn from_vector3_spec(vector: Vector3) -> Plane {
        Plane { normal: vector.normalize() }
    }

    /// The plane whose normal is `vector` brought to unit length. The
    /// plane is sound if `vector` is at least one unit long; a shorter one
    /// is rounded too coarsely, and the zero vector has no direction.
    #[verifier::when_used_as_spec(from_vector3_spec)]
    pub fn from_vector3(vector: Vector3) -> (r: Plane)
        ensures
            r == Plane::from_vector3_spec(vector),
            isqrt(vector.norm_squared_wide_spec()) >= SCALE ==> r.wf(),
    {
        proof {
            if isqrt(vector.norm_squared_wide_spec()) >= SCALE {
                lemma_normalize_nearly_unit(vector);
            }
        }
        Plane { normal: vector.normalize() }
    }

    /// The normal of the plane, in its own frame.
    pub fn normal(&self) -> (r: &Vector3)
        ensures
            *r == self.normal,
    {
        &self.normal
    }

    pub open spec fn aabb_spec(&self, pos: &Isometry3) -> AABB {
        let far = Vector3::repeat(Scalar { raw: HALF_MAX_RAW });
        AABB { mins: far.neg(), maxs: far }
    }

    /// The box around the plane: it reaches half of the largest scalar to
    /// every side, wherever the plane stands.
    #[verifier::when_used_as_spec(aabb_spec)]
    pub fn aabb(&self, pos: &Isometry3) -> (r: AABB)
        ensures
            r == self.aabb_spec(pos),
    {
        let far = Vector3::repeat(Scalar::from_raw(HALF_MAX_RAW));
        AABB::new(far.neg(), far)
    }

    pub open spec fn bounding_sphere_spec(&self, pos: &Isometry3) -> BoundingSphere {
        BoundingSphere { center: Vector3::zero(), radius: Scalar { raw: HALF_MAX_RAW } }
    }

    /// The bounding sphere of the plane: around the origin, with half of the
    /// largest scalar as its radius, wherever the plane stands.
    #[verifier::when_used_as_spec(bounding_sphere_spec)]
    pub fn bounding_sphere(&self, pos: &Isometry3) -> (r: BoundingSphere)
        ensures
            r == self.bounding_sphere_spec(pos),
    {
        BoundingSphere::new(Scalar::from_raw(HALF_MAX_RAW), Vector3::zero())
    }
}

} // verus!
