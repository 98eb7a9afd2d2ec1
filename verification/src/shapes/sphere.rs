//! The sphere.
use vstd::prelude::*;
use crate::math::isometry::Isometry3;
use crate::math::scalar::Scalar;
use crate::math::vector::Vector3;
use crate::shapes::bounding_volume::{BoundingSphere, AABB};

verus! {

/// A ball around the origin of its own frame.
#[derive(Clone, Copy, Debug, PartialEq, Eq, Structural)]
pub struct Sphere {
    pub radius: Scalar,
}

impl Sphere {
    /// The radius is positive.
    pub open spec fn wf(self) -> bool {
        self.radius@ > 0
    }

    /// The point `p` lies in the sphere placed at `center`. The distance is
    /// taken over the integers, so nothing saturates or rounds.
    pub open spec fn has_point(self, center: Vector3, p: Vector3) -> bool {
        (p.x@ - center.x@) * (p.x@ - center.x@) + (p.y@ - center.y@) * (p.y@ - center.y@) + (p.z@
            - center.z@) * (p.z@ - center.z@) <= self.radius@ * self.radius@
    }

    pub open spec fn new_spec(radius: Scalar) -> Sphere {
        Sphere { radius }
    }

    /// The sphere of the given radius.
    #[verifier::when_used_as_spec(new_spec)]
    pub fn new(radius: Scalar) -> (r: Sphere)
        ensures
            r == Sphere::new_spec(radius),
    {
        Sphere { radius }
    }

    pub open spec fn aabb_spec(&self, pos: &Isometry3) -> AABB {
        AABB::from_half_extents(pos.translation, Vector3::repeat(self.radius))
    }

    /// The box around the sphere placed at `pos`: the centre plus and minus
    /// the radius on every axis. The rotation changes nothing.
    #[verifier::when_used_as_spec(aabb_spec)]
    pub fn aabb(&self, pos: &Isometry3) -> (r: AABB)
        ensures
            r == self.aabb_spec(pos),
    {
        AABB::from_half_extents(pos.translation, Vector3::repeat(self.radius))
    }

    pub open spec fn bounding_sphere_spec(&self, pos: &Isometry3) -> BoundingSphere {
        BoundingSphere::new(self.radius, pos.translation)
    }

    /// The bounding sphere of the sphere placed at `pos`: the sphere itself.
    #[verifier::when_used_as_spec(bounding_sphere_spec)]
    pub fn bounding_sphere(&self, pos: &Isometry3) -> (r: BoundingSphere)
        ensures
            r == self.bounding_sphere_spec(pos),
    {
        BoundingSphere::new(self.radius, pos.translation)
    }
}

/// A number whose square is at most `r * r`, for `r >= 0`, lies between
/// `-r` and `r`.
pub proof fn lemma_square_bound(d: int, r: int)
    by (nonlinear_arith)
    requires
        r >= 0,
        d * d <= r * r,
    ensures
        -r <= d <= r,
{
}

/// The box around a sphere holds every point of the sphere.
pub proof fn lemma_sphere_box_encloses(s: Sphere, pos: Isometry3, p: Vector3)
    requires
        s.radius@ >= 0,
        s.has_point(pos.translation, p),
    ensures
        s.aabb(&pos).contains_point(p),
{
    let c = pos.translation;
    let r = s.radius@;
    let dx = p.x@ - c.x@;
    let dy = p.y@ - c.y@;
    let dz = p.z@ - c.z@;
    assert(dx * dx >= 0 && dy * dy >= 0 && dz * dz >= 0) by (nonlinear_arith);
    lemma_square_bound(dx, r);
    lemma_square_bound(dy, r);
    lemma_square_bound(dz, r);
}

/// The bounding sphere of a sphere holds exactly the points of the sphere:
/// it has the same centre and the same radius.
pub proof fn lemma_sphere_bounding_sphere_is_tight(s: Sphere, pos: Isometry3)
    ensures
        s.bounding_sphere(&pos).center == pos.translation,
        s.bounding_sphere(&pos).radius == s.radius,
{
}

} // verus!
