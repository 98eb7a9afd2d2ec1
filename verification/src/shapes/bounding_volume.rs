//! Cheap volumes that enclose a shape: boxes along the axes, and spheres.
use vstd::prelude::*;
use crate::math::scalar::Scalar;
use crate::math::vector::Vector3;

verus! {

/// A volume that can be tested against another of its kind.
pub trait BoundingVolume: Sized {
    /// The two volumes share at least one point.
    spec fn intersects_spec(&self, other: &Self) -> bool;

    /// `other` lies wholly inside `self`.
    spec fn contains_spec(&self, other: &Self) -> bool;

    /// Whether the two volumes share a point. Touching counts.
    fn interects(&self, other: &Self) -> (r: bool)
        ensures
            r == self.intersects_spec(other),
    ;

    /// Whether `other` lies wholly inside `self`.
    fn contains(&self, other: &Self) -> (r: bool)
        ensures
            r == self.contains_spec(other),
    ;
}

/// A box with its edges along the axes, from corner `mins` to corner `maxs`.
#[derive(Clone, Copy, Debug, PartialEq, Eq, Structural)]
pub struct AABB {
    pub mins: Vector3,
    pub maxs: Vector3,
}

impl AABB {
    /// The box is not inside out.
    pub open spec fn wf(self) -> bool {
        self.mins.le_all(self.maxs)
    }

    /// The point `p` lies in the box, faces included.
    pub open spec fn contains_point(self, p: Vector3) -> bool {
        self.mins.le_all(p) && p.le_all(self.maxs)
    }

    /// On the axis where `lo1..hi1` and `lo2..hi2` are the two boxes'
    /// extents, one box ends before the other begins.
    pub open spec fn apart(lo1: Scalar, hi1: Scalar, lo2: Scalar, hi2: Scalar) -> bool {
        hi1@ < lo2@ || hi2@ < lo1@
    }

    /// The boxes are apart on at least one axis.
    pub open spec fn disjoint(self, other: AABB) -> bool {
        ||| AABB::apart(self.mins.x, self.maxs.x, other.mins.x, other.maxs.x)
        ||| AABB::apart(self.mins.y, self.maxs.y, other.mins.y, other.maxs.y)
        ||| AABB::apart(self.mins.z, self.maxs.z, other.mins.z, other.maxs.z)
    }

    pub open spec fn new_spec(mins: Vector3, maxs: Vector3) -> AABB {
        AABB { mins, maxs }
    }

    /// The box with the given corners.
    #[verifier::when_used_as_spec(new_spec)]
    pub fn new(mins: Vector3, maxs: Vector3) -> (r: AABB)
        ensures
            r == AABB::new_spec(mins, maxs),
    {
        AABB { mins, maxs }
    }

    /// The corner with the smallest coordinates.
    pub fn mins(&self) -> (r: Vector3)
        ensures
            r == self.mins,
    {
        self.mins
    }

    /// The corner with the largest coordinates.
    pub fn maxs(&self) -> (r: Vector3)
        ensures
            r == self.maxs,
    {
        self.maxs
    }

    pub open spec fn from_half_extents_spec(center: Vector3, half_extents: Vector3) -> AABB {
        AABB { mins: center.sub(half_extents), maxs: center.add(half_extents) }
    }

    /// The box around `center` that reaches `half_extents` to either side.
    #[verifier::when_used_as_spec(from_half_extents_spec)]
    pub fn from_half_extents(center: Vector3, half_extents: Vector3) -> (r: AABB)
        ensures
            r == AABB::from_half_extents_spec(center, half_extents),
    {
        AABB { mins: center.sub(half_extents), maxs: center.add(half_extents) }
    }

    /// Moves the box by `translation`. A sound box stays sound.
    pub fn translate(&mut self, translation: &Vector3)
        ensures
            final(self).mins == old(self).mins.add(*translation),
            final(self).maxs == old(self).maxs.add(*translation),
            old(self).wf() ==> final(self).wf(),
    {
        self.maxs = self.maxs.add(*translation);
        self.mins = self.mins.add(*translation);
    }
}

impl BoundingVolume for AABB {
    /// On every axis each box begins no later than the other ends.
    open spec fn intersects_spec(&self, other: &AABB) -> bool {
        self.mins.le_all(other.maxs) && other.mins.le_all(self.maxs)
    }

    /// On every axis `self` begins no later and ends no earlier than `other`.
    open spec fn contains_spec(&self, other: &AABB) -> bool {
        self.mins.le_all(other.mins) && other.maxs.le_all(self.maxs)
    }

    fn interects(&self, other: &AABB) -> (r: bool) {
        self.mins.le_all(other.maxs) && other.mins.le_all(self.maxs)
    }

    fn contains(&self, other: &AABB) -> (r: bool) {
        self.mins.le_all(other.mins) && other.maxs.le_all(self.maxs)
    }
}

/// A ball around `center`.
#[derive(Clone, Copy, Debug, PartialEq, Eq, Structural)]
pub struct BoundingSphere {
    pub center: Vector3,
    pub radius: Scalar,
}

impl BoundingSphere {
    /// The radius is not negative.
    pub open spec fn wf(self) -> bool {
        self.radius@ >= 0
    }

    pub open spec fn new_spec(radius: Scalar, center: Vector3) -> BoundingSphere {
        BoundingSphere { center, radius }
    }

    /// The ball of the given radius around `center`.
    #[verifier::when_used_as_spec(new_spec)]
    pub fn new(radius: Scalar, center: Vector3) -> (r: BoundingSphere)
        ensures
            r == BoundingSphere::new_spec(radius, center),
    {
        BoundingSphere { center, radius }
    }
}

impl BoundingVolume for BoundingSphere {
    /// The squared distance of the centres is at most the squared sum of
    /// the radii. Both sides are exact.
    open spec fn intersects_spec(&self, other: &BoundingSphere) -> bool {
        let reach = self.radius.add(other.radius);
        other.center.sub(self.center).norm_squared_wide_spec() <= reach@ * reach@
    }

    /// The distance of the centres plus the radius of `other` is at most the
    /// radius of `self`, stated without a square root: the difference of the
    /// radii is not negative, and the squared distance is at most its square.
    open spec fn contains_spec(&self, other: &BoundingSphere) -> bool {
        let slack = self.radius.sub(other.radius);
        slack@ >= 0 && other.center.sub(self.center).norm_squared_wide_spec() <= slack@ * slack@
    }

    fn interects(&self, other: &BoundingSphere) -> (r: bool) {
        let reach = self.radius.add(other.radius);
        other.center.sub(self.center).norm_squared_wide() <= reach.square_wide()
    }

    fn contains(&self, other: &BoundingSphere) -> (r: bool) {
        let slack = self.radius.sub(other.radius);
        slack.ge(Scalar::zero())
            && other.center.sub(self.center).norm_squared_wide() <= slack.square_wide()
    }
}

/// Whether two boxes intersect does not depend on which is asked.
pub proof fn lemma_aabb_intersects_symmetric(a: AABB, b: AABB)
    ensures
        a.intersects_spec(&b) == b.intersects_spec(&a),
{
}

/// Two boxes intersect exactly when no axis holds them apart. Boxes that
/// begin where the other ends are not apart.
pub proof fn lemma_aabb_intersects_unless_apart(a: AABB, b: AABB)
    ensures
        a.intersects_spec(&b) == !a.disjoint(b),
{
}

/// Two sound boxes intersect exactly when some point lies in both.
pub proof fn lemma_aabb_intersects_iff_common_point(a: AABB, b: AABB)
    requires
        a.wf(),
        b.wf(),
    ensures
        a.intersects_spec(&b) <==> exists|p: Vector3|
            #[trigger] a.contains_point(p) && b.contains_point(p),
{
    if a.intersects_spec(&b) {
        let p = Vector3 {
            x: a.mins.x.max(b.mins.x),
            y: a.mins.y.max(b.mins.y),
            z: a.mins.z.max(b.mins.z),
        };
        assert(a.contains_point(p) && b.contains_point(p));
    }
}

/// A box whose smallest corner is the largest corner of another touches
/// it, and touching counts as intersecting.
pub proof fn lemma_aabb_touching_corner_intersects(a: AABB, b: AABB)
    requires
        a.wf(),
        b.wf(),
        a.mins == b.maxs,
    ensures
        a.intersects_spec(&b),
        b.intersects_spec(&a),
{
}

/// Two boxes that share a face on one axis and overlap on the two others
/// intersect: the bound is inclusive.
pub proof fn lemma_aabb_touching_face_intersects(a: AABB, b: AABB)
    requires
        a.wf(),
        b.wf(),
        a.maxs.x == b.mins.x,
        !AABB::apart(a.mins.y, a.maxs.y, b.mins.y, b.maxs.y),
        !AABB::apart(a.mins.z, a.maxs.z, b.mins.z, b.maxs.z),
    ensures
        a.intersects_spec(&b),
{
}

/// A sound box that contains another sound box intersects it.
pub proof fn lemma_aabb_contains_implies_intersects(a: AABB, b: AABB)
    requires
        b.wf(),
        a.contains_spec(&b),
    ensures
        a.intersects_spec(&b),
{
}

/// Whether two bounding spheres intersect does not depend on which is
/// asked, as long as their centres are close enough that the difference
/// does not saturate in either direction.
pub proof fn lemma_sphere_intersects_symmetric(a: BoundingSphere, b: BoundingSphere)
    requires
        a.center.near(b.center),
    ensures
        a.intersects_spec(&b) == b.intersects_spec(&a),
{
    let d = b.center.sub(a.center);
    let e = a.center.sub(b.center);
    assert(d.x@ * d.x@ == e.x@ * e.x@ && d.y@ * d.y@ == e.y@ * e.y@ && d.z@ * d.z@ == e.z@
        * e.z@) by (nonlinear_arith)
        requires
            d.x@ == -e.x@,
            d.y@ == -e.y@,
            d.z@ == -e.z@,
    ;
}

} // verus!
