//! The closed set of shapes a body can have.
use vstd::prelude::*;
use crate::math::isometry::Isometry3;
use crate::math::scalar::Scalar;
use crate::shapes::bounding_volume::{BoundingSphere, AABB};
use crate::shapes::cube::Cube;
use crate::shapes::plane::Plane;
use crate::shapes::sphere::Sphere;

verus! {

/// A geometric primitive in its own frame.
#[derive(Clone, Copy, Debug, PartialEq, Eq, Structural)]
pub enum Shape {
    Sphere(Sphere),
    Plane(Plane),
    Cube(Cube),
}

impl Shape {
    /// The shape is sound: the radius of a sphere and the half extents of
    /// a cube are positive, and the normal of a plane is of unit length.
    pub open spec fn wf(self) -> bool {
        match self {
            Shape::Sphere(s) => s.wf(),
            Shape::Plane(p) => p.wf(),
            Shape::Cube(c) => c.wf(),
        }
    }

    pub open spec fn compute_aabb_spec(&self, pos: &Isometry3) -> AABB {
        match *self {
            Shape::Sphere(s) => s.aabb(pos),
            Shape::Plane(p) => p.aabb(pos),
            Shape::Cube(c) => c.aabb(pos),
        }
    }

    /// The box along the world axes around the shape placed at `pos`.
    #[verifier::when_used_as_spec(compute_aabb_spec)]
    pub fn compute_aabb(&self, pos: &Isometry3) -> (r: AABB)
        ensures
            r == self.compute_aabb_spec(pos),
    {
        match self {
            Shape::Sphere(s) => s.aabb(pos),
            Shape::Plane(p) => p.aabb(pos),
            Shape::Cube(c) => c.aabb(pos),
        }
    }

    pub open spec fn compute_bounding_sphere_spec(&self, pos: &Isometry3) -> BoundingSphere {
        match *self {
            Shape::Sphere(s) => s.bounding_sphere(pos),
            Shape::Plane(p) => p.bounding_sphere(pos),
            Shape::Cube(c) => c.bounding_sphere(pos),
        }
    }

    /// The bounding sphere of the shape placed at `pos`.
    #[verifier::when_used_as_spec(compute_bounding_sphere_spec)]
    pub fn compute_bounding_sphere(&self, pos: &Isometry3) -> (r: BoundingSphere)
        ensures
            r == self.compute_bounding_sphere_spec(pos),
    {
        match self {
            Shape::Sphere(s) => s.bounding_sphere(pos),
            Shape::Plane(p) => p.bounding_sphere(pos),
            Shape::Cube(c) => c.bounding_sphere(pos),
        }
    }

    /// The sphere this shape is, or `Err` if it is none.
    pub fn as_sphere(&self) -> (r: Result<&Sphere, ()>)
        ensures
            match *self {
                Shape::Sphere(s) => r == Ok::<&Sphere, ()>(&s),
                _ => r is Err,
            },
    {
        match self {
            Shape::Sphere(s) => Ok(s),
            _ => Err(()),
        }
    }

    /// The plane this shape is, or `Err` if it is none.
    pub fn as_plane(&self) -> (r: Result<&Plane, ()>)
        ensures
            match *self {
                Shape::Plane(p) => r == Ok::<&Plane, ()>(&p),
                _ => r is Err,
            },
    {
        match self {
            Shape::Plane(p) => Ok(p),
            _ => Err(()),
        }
    }

    /// The cube this shape is, or `Err` if it is none.
    pub fn as_cube(&self) -> (r: Result<&Cube, ()>)
        ensures
            match *self {
                Shape::Cube(c) => r == Ok::<&Cube, ()>(&c),
                _ => r is Err,
            },
    {
        match self {
            Shape::Cube(c) => Ok(c),
            _ => Err(()),
        }
    }
}

/// The product of two scalars that are not negative is not negative.
pub proof fn lemma_mul_nonnegative(a: Scalar, b: Scalar)
    requires
        a@ >= 0,
        b@ >= 0,
    ensures
        a.mul(b)@ >= 0,
{
    let s = crate::math::scalar::SCALE as int;
    assert(a@ * b@ >= 0 && (a@ * b@) / s >= 0) by (nonlinear_arith)
        requires
            a@ >= 0,
            b@ >= 0,
            s > 0,
    ;
}

/// The box around a sound shape is sound: it is not inside out, wherever
/// the shape stands and however it is turned.
pub proof fn lemma_shape_box_wf(shape: Shape, pos: Isometry3)
    requires
        shape.wf(),
    ensures
        shape.compute_aabb(&pos).wf(),
{
    match shape {
        Shape::Cube(c) => {
            let m = pos.rotation.to_rotation_matrix().abs();
            let h = c.half_extents;
            lemma_mul_nonnegative(m.r0.x, h.x);
            lemma_mul_nonnegative(m.r0.y, h.y);
            lemma_mul_nonnegative(m.r0.z, h.z);
            lemma_mul_nonnegative(m.r1.x, h.x);
            lemma_mul_nonnegative(m.r1.y, h.y);
            lemma_mul_nonnegative(m.r1.z, h.z);
            lemma_mul_nonnegative(m.r2.x, h.x);
            lemma_mul_nonnegative(m.r2.y, h.y);
            lemma_mul_nonnegative(m.r2.z, h.z);
        },
        _ => {},
    }
}

} // verus!
