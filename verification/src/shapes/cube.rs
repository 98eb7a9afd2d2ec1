//! The box that may be turned.
use vstd::prelude::*;
use crate::math::isometry::Isometry3;
use crate::math::quaternion::lemma_rotation_matrix_bounded;
use crate::math::scalar::{lemma_isqrt_exists, lemma_mul_within, SCALE};
use crate::math::vector::Vector3;
use crate::shapes::bounding_volume::{BoundingSphere, AABB};
use crate::shapes::utils::IsometryOperations;

verus! {

/// A box around the origin of its own frame that reaches `half_extents`
/// to either side along its own axes.
#[derive(Clone, Copy, Debug, PartialEq, Eq, Structural)]
pub struct Cube {
    pub half_extents: Vector3,
}

impl Cube {
    /// Every half extent is positive.
    pub open spec fn wf(self) -> bool {
        self.half_extents.x@ > 0 && self.half_extents.y@ > 0 && self.half_extents.z@ > 0
    }

    pub open spec fn new_spec(half_extents: Vector3) -> Cube {
        Cube { half_extents }
    }

    /// The box with the given half extents along x, y and z.
    #[verifier::when_used_as_spec(new_spec)]
    pub fn new(half_extents: Vector3) -> (r: Cube)
        ensures
            r == Cube::new_spec(half_extents),
    {
        Cube { half_extents }
    }

    /// How far the box placed at `pos` reaches along each world axis: the
    /// entrywise absolute value of the rotation matrix, applied to the half
    /// extents.
    pub open spec fn world_half_extents(&self, pos: &Isometry3) -> Vector3 {
        pos.rotation.to_rotation_matrix().abs().mul_vec(self.half_extents)
    }

    pub open spec fn aabb_spec(&self, pos: &Isometry3) -> AABB {
        AABB::from_half_extents(pos.translation, self.world_half_extents(pos))
    }

    /// The box along the world axes around the box placed and turned by
    /// `pos`.
    #[verifier::when_used_as_spec(aabb_spec)]
    pub fn aabb(&self, pos: &Isometry3) -> (r: AABB)
        ensures
            r == self.aabb_spec(pos),
    {
        let reach = pos.rotation.to_rotation_matrix().abs().mul_vec(self.half_extents);
        AABB::from_half_extents(pos.translation, reach)
    }

    /// The point `q` of the box's own frame lies in the box.
    pub open spec fn has_local_point(self, q: Vector3) -> bool {
        &&& -self.half_extents.x@ <= q.x@ <= self.half_extents.x@
        &&& -self.half_extents.y@ <= q.y@ <= self.half_extents.y@
        &&& -self.half_extents.z@ <= q.z@ <= self.half_extents.z@
    }

    /// The half extents are small enough that the reach of the box along
    /// a world axis, which is at most twelve times the largest of them,
    /// does not saturate.
    pub open spec fn moderate(self) -> bool {
        &&& 16 * self.half_extents.x@ <= i64::MAX
        &&& 16 * self.half_extents.y@ <= i64::MAX
        &&& 16 * self.half_extents.z@ <= i64::MAX
    }

    pub open spec fn bounding_sphere_spec(&self, pos: &Isometry3) -> BoundingSphere {
        BoundingSphere::new(self.half_extents.norm_ceil(), pos.translation)
    }

    /// The bounding sphere of the box placed at `pos`: its radius is the
    /// distance from the centre to a corner, rounded up.
    #[verifier::when_used_as_spec(bounding_sphere_spec)]
    pub fn bounding_sphere(&self, pos: &Isometry3) -> (r: BoundingSphere)
        ensures
            r == self.bounding_sphere_spec(pos),
    {
        BoundingSphere::new(self.half_extents.norm_ceil(), pos.translation)
    }
}

/// One coordinate of a turned point of the box stays within the reach of
/// the box along that axis: for a row `m` of the rotation matrix, `m . q`
/// lies between minus and plus `|m| . h`.
pub proof fn lemma_row_within(m: Vector3, q: Vector3, h: Vector3)
    requires
        -4 * SCALE <= m.x@ <= 4 * SCALE,
        -4 * SCALE <= m.y@ <= 4 * SCALE,
        -4 * SCALE <= m.z@ <= 4 * SCALE,
        -h.x@ <= q.x@ <= h.x@,
        -h.y@ <= q.y@ <= h.y@,
        -h.z@ <= q.z@ <= h.z@,
        16 * h.x@ <= i64::MAX,
        16 * h.y@ <= i64::MAX,
        16 * h.z@ <= i64::MAX,
    ensures
        0 <= m.abs().dot(h)@,
        -m.abs().dot(h)@ <= m.dot(q)@ <= m.abs().dot(h)@,
{
    lemma_mul_within(m.x, q.x, h.x, 4);
    lemma_mul_within(m.y, q.y, h.y, 4);
    lemma_mul_within(m.z, q.z, h.z, 4);
}

/// The box along the world axes holds the whole of the turned box: every
/// point of a sound box of moderate size, turned and moved by a placement
/// whose rotation has its components between minus one and one, lies in
/// the box that [`Cube::aabb`] gives.
pub proof fn lemma_cube_box_encloses(cube: Cube, pos: Isometry3, q: Vector3)
    requires
        cube.wf(),
        cube.moderate(),
        pos.rotation.in_unit_range(),
        cube.has_local_point(q),
    ensures
        cube.aabb(&pos).contains_point(pos.translation.add(pos.global_vector_spec(&q))),
        cube.aabb(&pos).wf(),
{
    let m = pos.rotation.to_rotation_matrix();
    lemma_rotation_matrix_bounded(pos.rotation);
    lemma_row_within(m.r0, q, cube.half_extents);
    lemma_row_within(m.r1, q, cube.half_extents);
    lemma_row_within(m.r2, q, cube.half_extents);
}

/// The bounding sphere of a box reaches its corners: no point of the box
/// is further from the centre than the radius, unless the radius
/// saturates.
pub proof fn lemma_cube_ball_reaches(cube: Cube, pos: Isometry3, q: Vector3)
    requires
        cube.wf(),
        cube.has_local_point(q),
        cube.bounding_sphere(&pos).radius@ < i64::MAX,
    ensures
        q.norm_squared_wide_spec() <= cube.bounding_sphere(&pos).radius@ * cube.bounding_sphere(
            &pos,
        ).radius@,
{
    let h = cube.half_extents;
    let n = h.norm_squared_wide_spec();
    assert(q.x@ * q.x@ <= h.x@ * h.x@) by (nonlinear_arith)
        requires
            -h.x@ <= q.x@ <= h.x@,
    ;
    assert(q.y@ * q.y@ <= h.y@ * h.y@) by (nonlinear_arith)
        requires
            -h.y@ <= q.y@ <= h.y@,
    ;
    assert(q.z@ * q.z@ <= h.z@ * h.z@) by (nonlinear_arith)
        requires
            -h.z@ <= q.z@ <= h.z@,
    ;
    assert(n >= 0) by (nonlinear_arith)
        requires
            n == h.x@ * h.x@ + h.y@ * h.y@ + h.z@ * h.z@,
    ;
    lemma_isqrt_exists(n);
}

} // verus!
