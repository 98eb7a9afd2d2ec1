//! Exact tests between two placed shapes, and the manifolds they produce.
use vstd::prelude::*;
use crate::math::isometry::Isometry3;
use crate::math::quaternion::{lemma_identity_matrix, Quaternion};
use crate::math::scalar::{lemma_add_zero, lemma_mul_one, lemma_mul_zero, Scalar};
use crate::math::vector::{
    lemma_along_y, lemma_isqrt_square, lemma_norm_of_opposite, lemma_normalize_along_axis,
    lemma_normalize_nearly_unit, lemma_normalize_opposite, Vector3,
};
use crate::shapes::bounding_volume::BoundingVolume;
use crate::shapes::plane::{Plane, HALF_MAX_RAW};
use crate::shapes::sphere::{lemma_square_bound, Sphere};
use crate::shapes::utils::IsometryOperations;

verus! {

/// The two spheres touch or overlap: the squared distance of their centres
/// is at most the squared sum of their radii. Both sides are exact.
pub open spec fn spheres_collide(
    sphere_a: Sphere,
    sphere_b: Sphere,
    iso_a: Isometry3,
    iso_b: Isometry3,
) -> bool {
    let reach = sphere_a.radius.add(sphere_b.radius);
    iso_b.translation.sub(iso_a.translation).norm_squared_wide_spec() <= reach@ * reach@
}

/// The plane's normal as the world sees it.
pub open spec fn plane_world_normal(plane: Plane, iso_p: Isometry3) -> Vector3 {
    iso_p.global_vector_spec(&plane.normal)
}

/// The vector from the sphere's centre to the plane's origin, measured
/// along the plane's world normal. It is negative when the sphere's centre
/// lies on the side the normal points to.
pub open spec fn plane_offset(plane: Plane, iso_s: Isometry3, iso_p: Isometry3) -> Scalar {
    plane_world_normal(plane, iso_p).dot(iso_p.translation.sub(iso_s.translation))
}

/// The sphere touches or crosses the plane: its centre is no further from
/// the plane than its radius.
pub open spec fn sphere_plane_collide(
    sphere: Sphere,
    plane: Plane,
    iso_s: Isometry3,
    iso_p: Isometry3,
) -> bool {
    plane_offset(plane, iso_s, iso_p).abs()@ <= sphere.radius@
}

/// Whether two placed spheres touch or overlap.
pub fn sphere_sphere(
    sphere_a: &Sphere,
    sphere_b: &Sphere,
    iso_a: &Isometry3,
    iso_b: &Isometry3,
) -> (r: bool)
    ensures
        r == spheres_collide(*sphere_a, *sphere_b, *iso_a, *iso_b),
{
    let reach = sphere_a.radius.add(sphere_b.radius);
    iso_b.translation.sub(iso_a.translation).norm_squared_wide() <= reach.square_wide()
}

/// Whether a placed sphere touches or crosses a placed plane.
pub fn sphere_plane(
    sphere: &Sphere,
    plane: &Plane,
    iso_s: &Isometry3,
    iso_p: &Isometry3,
) -> (r: bool)
    ensures
        r == sphere_plane_collide(*sphere, *plane, *iso_s, *iso_p),
{
    let normal = iso_p.global_vector(plane.normal());
    let offset = normal.dot(iso_p.translation.sub(iso_s.translation));
    offset.abs().le(sphere.radius)
}

/// What is known of one contact between two bodies.
#[derive(Clone, Debug, PartialEq, Eq)]
pub struct CollisionManifold {
    /// Whether the bodies touch at all. If not, the rest is the fixed
    /// value that [`CollisionManifold::new`] gives.
    pub colliding: bool,
    /// The direction of the contact.
    pub normal: Vector3,
    /// How far the bodies reach into each other.
    pub depth: Scalar,
    /// The points of contact, in world coordinates.
    pub contacts: Vec<Vector3>,
}

/// A manifold as a value of the logic.
pub struct ManifoldView {
    pub colliding: bool,
    pub normal: Vector3,
    pub depth: Scalar,
    pub contacts: Seq<Vector3>,
}

impl View for CollisionManifold {
    type V = ManifoldView;

    open spec fn view(&self) -> ManifoldView {
        ManifoldView {
            colliding: self.colliding,
            normal: self.normal,
            depth: self.depth,
            contacts: self.contacts@,
        }
    }
}

impl ManifoldView {
    /// The manifold of two bodies that do not touch: the normal is the z
    /// axis, the depth the largest scalar, and there is no contact.
    pub open spec fn none() -> ManifoldView {
        ManifoldView {
            colliding: false,
            normal: Vector3::new(Scalar::zero(), Scalar::zero(), Scalar::one()),
            depth: Scalar::max_value(),
            contacts: Seq::empty(),
        }
    }

    /// The manifold of two placed spheres. When they touch, the normal
    /// points from the centre of `a` to the centre of `b`, the depth is half
    /// of what the distance of the centres falls short of the sum of the
    /// radii, and the one contact lies on the line of the centres, short of
    /// the surface of `a` by the depth.
    pub open spec fn sphere_sphere(
        a: Sphere,
        b: Sphere,
        iso_a: Isometry3,
        iso_b: Isometry3,
    ) -> ManifoldView {
        if !spheres_collide(a, b, iso_a, iso_b) {
            ManifoldView::none()
        } else {
            let d = iso_b.translation.sub(iso_a.translation);
            let normal = d.normalize();
            let depth = d.norm().sub(a.radius.add(b.radius)).abs().mul(Scalar::half());
            ManifoldView {
                colliding: true,
                normal,
                depth,
                contacts: seq![iso_a.translation.add(normal.scale(a.radius.sub(depth)))],
            }
        }
    }

    /// The manifold of a placed sphere and a placed plane. When they touch,
    /// the normal is the plane's world normal, turned so that it points to
    /// the side of the plane where the sphere's centre lies; the depth is the
    /// radius minus the offset of the plane from the centre along the
    /// plane's normal; the one contact is the foot of the centre on the
    /// plane.
    pub open spec fn sphere_plane(
        sphere: Sphere,
        plane: Plane,
        iso_s: Isometry3,
        iso_p: Isometry3,
    ) -> ManifoldView {
        if !sphere_plane_collide(sphere, plane, iso_s, iso_p) {
            ManifoldView::none()
        } else {
            let n = plane_world_normal(plane, iso_p);
            let offset = plane_offset(plane, iso_s, iso_p);
            ManifoldView {
                colliding: true,
                normal: if offset@ <= 0 {
                    n
                } else {
                    n.neg()
                },
                depth: sphere.radius.sub(offset),
                contacts: seq![iso_s.translation.add(n.scale(offset))],
            }
        }
    }
}

impl CollisionManifold {
    /// The manifold of two bodies that do not touch.
    pub fn new() -> (r: CollisionManifold)
        ensures
            r@ == ManifoldView::none(),
    {
        CollisionManifold {
            colliding: false,
            normal: Vector3::new(Scalar::zero(), Scalar::zero(), Scalar::one()),
            depth: Scalar::max_value(),
            contacts: Vec::new(),
        }
    }

    /// The manifold of two placed spheres.
    pub fn sphere_sphere(
        sphere_a: &Sphere,
        sphere_b: &Sphere,
        iso_a: &Isometry3,
        iso_b: &Isometry3,
    ) -> (r: CollisionManifold)
        ensures
            r@ == ManifoldView::sphere_sphere(*sphere_a, *sphere_b, *iso_a, *iso_b),
            r.colliding == spheres_collide(*sphere_a, *sphere_b, *iso_a, *iso_b),
            r.colliding ==> r.contacts@.len() == 1,
    {
        let mut manifold = CollisionManifold::new();
        let d = iso_b.translation.sub(iso_a.translation);
        let radii = sphere_a.radius.add(sphere_b.radius);
        if d.norm_squared_wide() > radii.square_wide() {
            return manifold;
        }
        manifold.colliding = true;
        manifold.normal = d.normalize();
        manifold.depth = d.norm().sub(radii).abs().mul(Scalar::half());
        let reach = sphere_a.radius.sub(manifold.depth);
        manifold.contacts.push(iso_a.translation.add(manifold.normal.scale(reach)));
        proof {
            assert(manifold@.contacts =~= ManifoldView::sphere_sphere(
                *sphere_a,
                *sphere_b,
                *iso_a,
                *iso_b,
            ).contacts);
        }
        manifold
    }

    /// The manifold of a placed sphere and a placed plane.
    pub fn sphere_plane(
        sphere: &Sphere,
        plane: &Plane,
        iso_s: &Isometry3,
        iso_p: &Isometry3,
    ) -> (r: CollisionManifold)
        ensures
            r@ == ManifoldView::sphere_plane(*sphere, *plane, *iso_s, *iso_p),
            r.colliding == sphere_plane_collide(*sphere, *plane, *iso_s, *iso_p),
            r.colliding ==> r.contacts@.len() == 1,
    {
        let mut manifold = CollisionManifold::new();
        let n = iso_p.global_vector(plane.normal());
        let offset = n.dot(iso_p.translation.sub(iso_s.translation));
        if offset.abs().gt(sphere.radius) {
            return manifold;
        }
        manifold.colliding = true;
        manifold.normal = if offset.le(Scalar::zero()) {
            n
        } else {
            n.neg()
        };
        manifold.depth = sphere.radius.sub(offset);
        manifold.contacts.push(iso_s.translation.add(n.scale(offset)));
        proof {
            assert(manifold@.contacts =~= ManifoldView::sphere_plane(
                *sphere,
                *plane,
                *iso_s,
                *iso_p,
            ).contacts);
        }
        manifold
    }
}

/// Every coordinate of `p` lies within the reach of the box around a plane.
pub open spec fn in_reach(p: Vector3) -> bool {
    &&& -HALF_MAX_RAW <= p.x@ <= HALF_MAX_RAW
    &&& -HALF_MAX_RAW <= p.y@ <= HALF_MAX_RAW
    &&& -HALF_MAX_RAW <= p.z@ <= HALF_MAX_RAW
}

/// The broad phase cannot miss two spheres that touch: if their centres
/// and the sum of their radii are in range, and the exact test finds
/// them colliding, then the boxes around them intersect.
pub proof fn lemma_colliding_spheres_boxes_meet(
    a: Sphere,
    b: Sphere,
    iso_a: Isometry3,
    iso_b: Isometry3,
)
    requires
        a.radius@ >= 0,
        b.radius@ >= 0,
        a.radius@ + b.radius@ <= i64::MAX,
        iso_a.translation.near(iso_b.translation),
        spheres_collide(a, b, iso_a, iso_b),
    ensures
        a.aabb(&iso_a).intersects_spec(&b.aabb(&iso_b)),
{
    let d = iso_b.translation.sub(iso_a.translation);
    let reach = a.radius@ + b.radius@;
    assert(d.x@ * d.x@ >= 0 && d.y@ * d.y@ >= 0 && d.z@ * d.z@ >= 0) by (nonlinear_arith);
    lemma_square_bound(d.x@, reach);
    lemma_square_bound(d.y@, reach);
    lemma_square_bound(d.z@, reach);
}

/// The box around a plane holds every point within reach.
pub proof fn lemma_plane_box_holds(plane: Plane, pos: Isometry3, p: Vector3)
    requires
        in_reach(p),
    ensures
        plane.aabb(&pos).contains_point(p),
        plane.aabb(&pos).wf(),
{
}

/// The broad phase cannot miss a sphere and a plane: the box around a
/// plane intersects the box around any sphere whose centre is in reach.
pub proof fn lemma_plane_box_meets_sphere_box(
    sphere: Sphere,
    plane: Plane,
    iso_s: Isometry3,
    iso_p: Isometry3,
)
    requires
        sphere.radius@ >= 0,
        in_reach(iso_s.translation),
    ensures
        plane.aabb(&iso_p).intersects_spec(&sphere.aabb(&iso_s)),
        sphere.aabb(&iso_s).intersects_spec(&plane.aabb(&iso_p)),
{
}

/// Over level ground, height decides: a sphere touches a plane that is not
/// turned and whose normal is the y axis exactly when its centre is no
/// further above or below the plane than its radius. The manifold then
/// has the y axis as its normal, turned to the side of the centre, and
/// the foot of the centre on the plane as its contact.
pub proof fn lemma_sphere_over_level_plane(sphere: Sphere, iso_s: Isometry3, iso_p: Isometry3)
    requires
        iso_p.rotation == Quaternion::identity(),
    ensures
        ({
            let up = Vector3::new(Scalar::zero(), Scalar::one(), Scalar::zero());
            let level = Plane::new(up);
            let drop = iso_p.translation.y.sub(iso_s.translation.y);
            let m = ManifoldView::sphere_plane(sphere, level, iso_s, iso_p);
            &&& plane_offset(level, iso_s, iso_p) == drop
            &&& sphere_plane_collide(sphere, level, iso_s, iso_p) == (drop.abs()@ <= sphere.radius@)
            &&& m.colliding ==> m.contacts == seq![
                iso_s.translation.add(Vector3::new(Scalar::zero(), drop, Scalar::zero())),
            ]
            &&& m.colliding ==> m.normal == if drop@ <= 0 {
                up
            } else {
                up.neg()
            }
            &&& m.colliding ==> m.depth == sphere.radius.sub(drop)
        }),
{
    let zero = Scalar::zero();
    let up = Vector3::new(zero, Scalar::one(), zero);
    let level = Plane::new(up);
    let d = iso_p.translation.sub(iso_s.translation);
    lemma_identity_matrix();
    assert(plane_world_normal(level, iso_p) == up) by {
        lemma_mul_one(Scalar::one());
        lemma_mul_zero(Scalar::one());
        lemma_mul_zero(zero);
        lemma_add_zero(zero);
        lemma_add_zero(Scalar::one());
    }
    assert(up.dot(d) == d.y) by {
        lemma_mul_zero(d.x);
        lemma_mul_zero(d.z);
        lemma_mul_one(d.y);
        lemma_add_zero(d.y);
    }
    lemma_along_y(d.y, Scalar::one());
}

/// Two spheres side by side along the x axis: they touch exactly when the
/// second centre lies no further from the first than the sum of the
/// radii, and the manifold then has the unit vector of the axis, with the
/// sign of the way from the first to the second, as its normal. Nothing is
/// rounded in it but the halving of the depth.
pub proof fn lemma_spheres_along_x(a: Sphere, b: Sphere, iso_a: Isometry3, iso_b: Isometry3)
    requires
        a.radius@ >= 0,
        b.radius@ >= 0,
        iso_b.translation.y == iso_a.translation.y,
        iso_b.translation.z == iso_a.translation.z,
        iso_b.translation.x@ != iso_a.translation.x@,
        iso_a.translation.near(iso_b.translation),
    ensures
        ({
            let way = iso_b.translation.x.sub(iso_a.translation.x);
            let reach = a.radius.add(b.radius);
            let m = ManifoldView::sphere_sphere(a, b, iso_a, iso_b);
            &&& m.colliding == (way.abs()@ <= reach@)
            &&& m.colliding && way@ > 0 ==> m.normal == Vector3::new(
                Scalar::one(),
                Scalar::zero(),
                Scalar::zero(),
            )
            &&& m.colliding && way@ < 0 ==> m.normal == Vector3::new(
                Scalar::one().neg(),
                Scalar::zero(),
                Scalar::zero(),
            )
            &&& m.colliding && way@ > 0 ==> m.depth == reach.sub(way).mul(Scalar::half())
        }),
{
    let way = iso_b.translation.x.sub(iso_a.translation.x);
    let reach = a.radius.add(b.radius);
    let d = iso_b.translation.sub(iso_a.translation);
    assert(d == Vector3::new(way, Scalar::zero(), Scalar::zero()));
    assert(d.norm_squared_wide_spec() == way@ * way@) by (nonlinear_arith)
        requires
            d.norm_squared_wide_spec() == way@ * way@ + 0 * 0 + 0 * 0,
    ;
    lemma_normalize_along_axis(way);
    let m = if way@ >= 0 {
        way@
    } else {
        -way@
    };
    lemma_isqrt_square(m);
    assert(m * m == way@ * way@) by (nonlinear_arith)
        requires
            m == way@ || m == -way@,
    ;
    assert((m <= reach@) == (m * m <= reach@ * reach@)) by (nonlinear_arith)
        requires
            m >= 0,
            reach@ >= 0,
    ;
}

/// Seen from the other sphere, a collision is the same collision: the
/// two spheres touch either way or neither way, as deep, and with the
/// opposite normal, as long as their centres are close enough that the
/// difference does not saturate.
pub proof fn lemma_sphere_sphere_swapped(a: Sphere, b: Sphere, iso_a: Isometry3, iso_b: Isometry3)
    requires
        iso_a.translation.near(iso_b.translation),
    ensures
        spheres_collide(b, a, iso_b, iso_a) == spheres_collide(a, b, iso_a, iso_b),
        ManifoldView::sphere_sphere(b, a, iso_b, iso_a).depth == ManifoldView::sphere_sphere(
            a,
            b,
            iso_a,
            iso_b,
        ).depth,
        ManifoldView::sphere_sphere(b, a, iso_b, iso_a).normal == ManifoldView::sphere_sphere(
            a,
            b,
            iso_a,
            iso_b,
        ).normal.neg() || !spheres_collide(a, b, iso_a, iso_b),
{
    let d = iso_b.translation.sub(iso_a.translation);
    let e = iso_a.translation.sub(iso_b.translation);
    assert(e == d.neg());
    lemma_norm_of_opposite(d);
    lemma_normalize_opposite(d);
}

/// The normal of two colliding spheres is of unit length, up to rounding,
/// where their centres are at least one unit apart. Closer centres give
/// a normal that is rounded more coarsely, and equal centres give none.
pub proof fn lemma_sphere_sphere_normal_is_unit(
    a: Sphere,
    b: Sphere,
    iso_a: Isometry3,
    iso_b: Isometry3,
)
    requires
        spheres_collide(a, b, iso_a, iso_b),
        iso_b.translation.sub(iso_a.translation).norm()@ >= crate::math::scalar::SCALE,
    ensures
        ManifoldView::sphere_sphere(a, b, iso_a, iso_b).normal.nearly_unit(),
{
    lemma_normalize_nearly_unit(iso_b.translation.sub(iso_a.translation));
}

} // verus!
