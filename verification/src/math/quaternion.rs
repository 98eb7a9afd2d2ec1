//! Quaternions, used as orientations.
use vstd::prelude::*;
use crate::math::matrix::Matrix3;
use crate::math::scalar::{
    isqrt, isqrt_u128, lemma_add_zero, lemma_isqrt_exists, lemma_isqrt_is, lemma_mul_in_unit_range,
    lemma_mul_one, lemma_mul_zero, wide_div, wide_mul, Scalar, SCALE,
};
use crate::math::vector::{lemma_unit_component_in_range, unit_component, Vector3};

verus! {

/// The quaternion `w + x i + y j + z k`.
#[derive(Clone, Copy, Debug, PartialEq, Eq, Structural)]
pub struct Quaternion {
    pub w: Scalar,
    pub x: Scalar,
    pub y: Scalar,
    pub z: Scalar,
}

/// `n` held below the top of the `u128` range.
pub open spec fn cap_u128(n: int) -> int {
    if n > u128::MAX {
        u128::MAX as int
    } else {
        n
    }
}

impl Quaternion {
    pub open spec fn new_spec(w: Scalar, x: Scalar, y: Scalar, z: Scalar) -> Quaternion {
        Quaternion { w, x, y, z }
    }

    /// The quaternion with the given components.
    #[verifier::when_used_as_spec(new_spec)]
    pub fn new(w: Scalar, x: Scalar, y: Scalar, z: Scalar) -> (r: Quaternion)
        ensures
            r == Quaternion::new_spec(w, x, y, z),
    {
        Quaternion { w, x, y, z }
    }

    pub open spec fn identity_spec() -> Quaternion {
        Quaternion { w: Scalar::one(), x: Scalar::zero(), y: Scalar::zero(), z: Scalar::zero() }
    }

    /// The orientation that rotates nothing.
    #[verifier::when_used_as_spec(identity_spec)]
    pub fn identity() -> (r: Quaternion)
        ensures
            r == Quaternion::identity_spec(),
    {
        Quaternion { w: Scalar::one(), x: Scalar::zero(), y: Scalar::zero(), z: Scalar::zero() }
    }

    /// Every component lies between minus one and one, as those of a
    /// quaternion of unit length do.
    pub open spec fn in_unit_range(self) -> bool {
        &&& -SCALE <= self.w@ <= SCALE
        &&& -SCALE <= self.x@ <= SCALE
        &&& -SCALE <= self.y@ <= SCALE
        &&& -SCALE <= self.z@ <= SCALE
    }

    /// The imaginary part.
    pub open spec fn vector_spec(self) -> Vector3 {
        Vector3 { x: self.x, y: self.y, z: self.z }
    }

    /// The imaginary part, as a vector.
    #[verifier::when_used_as_spec(vector_spec)]
    pub fn vector(self) -> (r: Vector3)
        ensures
            r == self.vector_spec(),
    {
        Vector3 { x: self.x, y: self.y, z: self.z }
    }

    pub open spec fn from_small_rotation_spec(u: Vector3) -> Quaternion {
        let half = Scalar::half();
        Quaternion { w: Scalar::one(), x: u.x.mul(half), y: u.y.mul(half), z: u.z.mul(half) }
    }

    /// The rotation about the axis `u` by the angle `|u|`, to first order in
    /// the angle: `1 + u / 2`. It is not of unit length.
    #[verifier::when_used_as_spec(from_small_rotation_spec)]
    pub fn from_small_rotation(u: Vector3) -> (r: Quaternion)
        ensures
            r == Quaternion::from_small_rotation_spec(u),
    {
        let half = Scalar::half();
        Quaternion { w: Scalar::one(), x: u.x.mul(half), y: u.y.mul(half), z: u.z.mul(half) }
    }

    pub open spec fn mul_spec(self, o: Quaternion) -> Quaternion {
        Quaternion {
            w: self.w.mul(o.w).sub(self.x.mul(o.x)).sub(self.y.mul(o.y)).sub(self.z.mul(o.z)),
            x: self.w.mul(o.x).add(self.x.mul(o.w)).add(self.y.mul(o.z)).sub(self.z.mul(o.y)),
            y: self.w.mul(o.y).sub(self.x.mul(o.z)).add(self.y.mul(o.w)).add(self.z.mul(o.x)),
            z: self.w.mul(o.z).add(self.x.mul(o.y)).sub(self.y.mul(o.x)).add(self.z.mul(o.w)),
        }
    }

    /// The Hamilton product `self * o`: the rotation `o` followed by `self`.
    #[verifier::when_used_as_spec(mul_spec)]
    pub fn mul(self, o: Quaternion) -> (r: Quaternion)
        ensures
            r == self.mul_spec(o),
    {
        Quaternion {
            w: self.w.mul(o.w).sub(self.x.mul(o.x)).sub(self.y.mul(o.y)).sub(self.z.mul(o.z)),
            x: self.w.mul(o.x).add(self.x.mul(o.w)).add(self.y.mul(o.z)).sub(self.z.mul(o.y)),
            y: self.w.mul(o.y).sub(self.x.mul(o.z)).add(self.y.mul(o.w)).add(self.z.mul(o.x)),
            z: self.w.mul(o.z).add(self.x.mul(o.y)).sub(self.y.mul(o.x)).add(self.z.mul(o.w)),
        }
    }

    /// The exact squared length in squared raw units, capped at `u128::MAX`.
    pub open spec fn norm_squared_wide_spec(self) -> int {
        cap_u128(self.w@ * self.w@ + self.vector().norm_squared_wide_spec())
    }

    /// The exact squared length in squared raw units, capped at `u128::MAX`.
    pub fn norm_squared_wide(self) -> (r: u128)
        ensures
            r == self.norm_squared_wide_spec(),
    {
        let w2: u128 = self.w.square_wide();
        let v2: u128 = self.vector().norm_squared_wide();
        if v2 > u128::MAX - w2 {
            u128::MAX
        } else {
            w2 + v2
        }
    }

    pub open spec fn normalize_spec(self) -> Quaternion {
        let len = isqrt(self.norm_squared_wide_spec());
        if len == 0 {
            Quaternion::identity()
        } else {
            Quaternion {
                w: unit_component(self.w, len),
                x: unit_component(self.x, len),
                y: unit_component(self.y, len),
                z: unit_component(self.z, len),
            }
        }
    }

    /// The quaternion divided by its length; the zero quaternion becomes
    /// the identity.
    #[verifier::when_used_as_spec(normalize_spec)]
    pub fn normalize(self) -> (r: Quaternion)
        ensures
            r == self.normalize_spec(),
    {
        let len: u128 = isqrt_u128(self.norm_squared_wide());
        if len == 0 {
            Quaternion::identity()
        } else {
            Quaternion {
                w: Scalar::from_raw(wide_div(wide_mul(self.w.raw(), SCALE), len)),
                x: Scalar::from_raw(wide_div(wide_mul(self.x.raw(), SCALE), len)),
                y: Scalar::from_raw(wide_div(wide_mul(self.y.raw(), SCALE), len)),
                z: Scalar::from_raw(wide_div(wide_mul(self.z.raw(), SCALE), len)),
            }
        }
    }

    pub open spec fn to_rotation_matrix_spec(self) -> Matrix3 {
        let ww = self.w.mul(self.w);
        let xx = self.x.mul(self.x);
        let yy = self.y.mul(self.y);
        let zz = self.z.mul(self.z);
        let xy = self.x.mul(self.y);
        let xz = self.x.mul(self.z);
        let yz = self.y.mul(self.z);
        let wx = self.w.mul(self.x);
        let wy = self.w.mul(self.y);
        let wz = self.w.mul(self.z);
        Matrix3 {
            r0: Vector3::new(
                ww.add(xx).sub(yy).sub(zz),
                xy.sub(wz).add(xy.sub(wz)),
                wy.add(xz).add(wy.add(xz)),
            ),
            r1: Vector3::new(
                wz.add(xy).add(wz.add(xy)),
                ww.sub(xx).add(yy).sub(zz),
                yz.sub(wx).add(yz.sub(wx)),
            ),
            r2: Vector3::new(
                xz.sub(wy).add(xz.sub(wy)),
                wx.add(yz).add(wx.add(yz)),
                ww.sub(xx).sub(yy).add(zz),
            ),
        }
    }

    /// The rotation matrix of a unit quaternion.
    #[verifier::when_used_as_spec(to_rotation_matrix_spec)]
    pub fn to_rotation_matrix(self) -> (r: Matrix3)
        ensures
            r == self.to_rotation_matrix_spec(),
    {
        let ww = self.w.mul(self.w);
        let xx = self.x.mul(self.x);
        let yy = self.y.mul(self.y);
        let zz = self.z.mul(self.z);
        let xy = self.x.mul(self.y);
        let xz = self.x.mul(self.z);
        let yz = self.y.mul(self.z);
        let wx = self.w.mul(self.x);
        let wy = self.w.mul(self.y);
        let wz = self.w.mul(self.z);
        Matrix3 {
            r0: Vector3::new(
                ww.add(xx).sub(yy).sub(zz),
                xy.sub(wz).add(xy.sub(wz)),
                wy.add(xz).add(wy.add(xz)),
            ),
            r1: Vector3::new(
                wz.add(xy).add(wz.add(xy)),
                ww.sub(xx).add(yy).sub(zz),
                yz.sub(wx).add(yz.sub(wx)),
            ),
            r2: Vector3::new(
                xz.sub(wy).add(xz.sub(wy)),
                wx.add(yz).add(wx.add(yz)),
                ww.sub(xx).sub(yy).add(zz),
            ),
        }
    }

    pub open spec fn rotate_spec(self, v: Vector3) -> Vector3 {
        self.to_rotation_matrix().mul_vec(v)
    }

    /// `v` rotated by this orientation.
    #[verifier::when_used_as_spec(rotate_spec)]
    pub fn rotate(self, v: Vector3) -> (r: Vector3)
        ensures
            r == self.rotate_spec(v),
    {
        self.to_rotation_matrix().mul_vec(v)
    }
}

/// The identity is neutral on the right of the product.
pub proof fn lemma_mul_identity(q: Quaternion)
    ensures
        q.mul(Quaternion::identity()) == q,
{
    lemma_mul_one(q.w);
    lemma_mul_one(q.x);
    lemma_mul_one(q.y);
    lemma_mul_one(q.z);
    lemma_mul_zero(q.w);
    lemma_mul_zero(q.x);
    lemma_mul_zero(q.y);
    lemma_mul_zero(q.z);
    lemma_add_zero(q.w);
    lemma_add_zero(q.x);
    lemma_add_zero(q.y);
    lemma_add_zero(q.z);
}

/// No rotation, to first order, is the identity.
pub proof fn lemma_small_rotation_zero()
    ensures
        Quaternion::from_small_rotation(Vector3::zero()) == Quaternion::identity(),
{
    lemma_mul_zero(Scalar::half());
}

/// The identity is of unit length already.
pub proof fn lemma_normalize_identity()
    ensures
        Quaternion::identity().normalize() == Quaternion::identity(),
{
    let s = SCALE as int;
    assert(Quaternion::identity().norm_squared_wide_spec() == s * s);
    assert(s * s < (s + 1) * (s + 1)) by (nonlinear_arith)
        requires
            s > 0,
    ;
    lemma_isqrt_is(s, s * s);
    assert((s * s) / s == s) by (nonlinear_arith)
        requires
            s > 0,
    ;
    assert(0 * s == 0) by (nonlinear_arith);
    assert(0int / s == 0) by (nonlinear_arith)
        requires
            s > 0,
    ;
}

/// The identity rotates nothing: its matrix is the identity matrix.
pub proof fn lemma_identity_matrix()
    ensures
        Quaternion::identity().to_rotation_matrix() == Matrix3::from_diagonal(
            Vector3::repeat(Scalar::one()),
        ),
{
    lemma_mul_one(Scalar::one());
    lemma_mul_zero(Scalar::one());
    lemma_mul_zero(Scalar::zero());
}

/// Normalising never overshoots: every component of a normalised
/// quaternion lies between minus one and one.
pub proof fn lemma_normalize_in_unit_range(q: Quaternion)
    ensures
        q.normalize().in_unit_range(),
{
    let n = q.norm_squared_wide_spec();
    assert(q.w@ * q.w@ >= 0 && q.x@ * q.x@ >= 0 && q.y@ * q.y@ >= 0 && q.z@ * q.z@ >= 0)
        by (nonlinear_arith);
    assert(q.w@ * q.w@ <= 0x4000_0000_0000_0000_0000_0000_0000_0000 && q.x@ * q.x@
        <= 0x4000_0000_0000_0000_0000_0000_0000_0000 && q.y@ * q.y@
        <= 0x4000_0000_0000_0000_0000_0000_0000_0000 && q.z@ * q.z@
        <= 0x4000_0000_0000_0000_0000_0000_0000_0000) by (nonlinear_arith)
        requires
            -0x8000_0000_0000_0000 <= q.w@ <= 0x7fff_ffff_ffff_ffff,
            -0x8000_0000_0000_0000 <= q.x@ <= 0x7fff_ffff_ffff_ffff,
            -0x8000_0000_0000_0000 <= q.y@ <= 0x7fff_ffff_ffff_ffff,
            -0x8000_0000_0000_0000 <= q.z@ <= 0x7fff_ffff_ffff_ffff,
    ;
    lemma_isqrt_exists(n);
    if isqrt(n) != 0 {
        lemma_unit_component_in_range(q.w, n);
        lemma_unit_component_in_range(q.x, n);
        lemma_unit_component_in_range(q.y, n);
        lemma_unit_component_in_range(q.z, n);
    }
}

/// Every entry of `m` lies between minus `bound` and `bound`.
pub open spec fn entries_within(m: Matrix3, bound: int) -> bool {
    &&& -bound <= m.r0.x@ <= bound
    &&& -bound <= m.r0.y@ <= bound
    &&& -bound <= m.r0.z@ <= bound
    &&& -bound <= m.r1.x@ <= bound
    &&& -bound <= m.r1.y@ <= bound
    &&& -bound <= m.r1.z@ <= bound
    &&& -bound <= m.r2.x@ <= bound
    &&& -bound <= m.r2.y@ <= bound
    &&& -bound <= m.r2.z@ <= bound
}

/// The matrix of a quaternion with components between minus one and one
/// has its entries between minus four and four.
pub proof fn lemma_rotation_matrix_bounded(q: Quaternion)
    requires
        q.in_unit_range(),
    ensures
        entries_within(q.to_rotation_matrix(), 4 * SCALE),
{
    lemma_mul_in_unit_range(q.w, q.w);
    lemma_mul_in_unit_range(q.x, q.x);
    lemma_mul_in_unit_range(q.y, q.y);
    lemma_mul_in_unit_range(q.z, q.z);
    lemma_mul_in_unit_range(q.x, q.y);
    lemma_mul_in_unit_range(q.x, q.z);
    lemma_mul_in_unit_range(q.y, q.z);
    lemma_mul_in_unit_range(q.w, q.x);
    lemma_mul_in_unit_range(q.w, q.y);
    lemma_mul_in_unit_range(q.w, q.z);
}

} // verus!
