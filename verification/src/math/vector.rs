//! Three-component vectors and points over [`Scalar`].
use vstd::prelude::*;
use crate::math::scalar::{
    isqrt, isqrt_u128, lemma_add_zero, lemma_isqrt_is, lemma_mul_one, lemma_mul_zero, tdiv, wide_div,
    wide_mul, Scalar, SCALE,
};

verus! {

/// A vector, or a point given by its coordinates.
#[derive(Clone, Copy, Debug, PartialEq, Eq, Structural)]
pub struct Vector3 {
    pub x: Scalar,
    pub y: Scalar,
    pub z: Scalar,
}

/// One component of a normalised vector: `c / len`, in raw units.
pub open spec fn unit_component(c: Scalar, len: int) -> Scalar {
    Scalar::of(tdiv(c@ * SCALE, len))
}

impl Vector3 {
    pub open spec fn new_spec(x: Scalar, y: Scalar, z: Scalar) -> Vector3 {
        Vector3 { x, y, z }
    }

    /// The vector with the given components.
    #[verifier::when_used_as_spec(new_spec)]
    pub fn new(x: Scalar, y: Scalar, z: Scalar) -> (r: Vector3)
        ensures
            r == Vector3::new_spec(x, y, z),
    {
        Vector3 { x, y, z }
    }

    /// The vector with the components of `a`, in order.
    pub fn from_array(a: [Scalar; 3]) -> (r: Vector3)
        ensures
            r == Vector3::new(a[0], a[1], a[2]),
    {
        Vector3 { x: a[0], y: a[1], z: a[2] }
    }

    pub open spec fn zero_spec() -> Vector3 {
        Vector3 { x: Scalar::zero(), y: Scalar::zero(), z: Scalar::zero() }
    }

    /// The zero vector.
    #[verifier::when_used_as_spec(zero_spec)]
    pub fn zero() -> (r: Vector3)
        ensures
            r == Vector3::zero_spec(),
    {
        Vector3 { x: Scalar::zero(), y: Scalar::zero(), z: Scalar::zero() }
    }

    pub open spec fn repeat_spec(s: Scalar) -> Vector3 {
        Vector3 { x: s, y: s, z: s }
    }

    /// The vector whose three components are `s`.
    #[verifier::when_used_as_spec(repeat_spec)]
    pub fn repeat(s: Scalar) -> (r: Vector3)
        ensures
            r == Vector3::repeat_spec(s),
    {
        Vector3 { x: s, y: s, z: s }
    }

    pub open spec fn add_spec(self, o: Vector3) -> Vector3 {
        Vector3 { x: self.x.add(o.x), y: self.y.add(o.y), z: self.z.add(o.z) }
    }

    /// Componentwise sum.
    #[verifier::when_used_as_spec(add_spec)]
    pub fn add(self, o: Vector3) -> (r: Vector3)
        ensures
            r == self.add_spec(o),
    {
        Vector3 { x: self.x.add(o.x), y: self.y.add(o.y), z: self.z.add(o.z) }
    }

    pub open spec fn sub_spec(self, o: Vector3) -> Vector3 {
        Vector3 { x: self.x.sub(o.x), y: self.y.sub(o.y), z: self.z.sub(o.z) }
    }

    /// Componentwise difference.
    #[verifier::when_used_as_spec(sub_spec)]
    pub fn sub(self, o: Vector3) -> (r: Vector3)
        ensures
            r == self.sub_spec(o),
    {
        Vector3 { x: self.x.sub(o.x), y: self.y.sub(o.y), z: self.z.sub(o.z) }
    }

    pub open spec fn neg_spec(self) -> Vector3 {
        Vector3 { x: self.x.neg(), y: self.y.neg(), z: self.z.neg() }
    }

    /// The opposite vector.
    #[verifier::when_used_as_spec(neg_spec)]
    pub fn neg(self) -> (r: Vector3)
        ensures
            r == self.neg_spec(),
    {
        Vector3 { x: self.x.neg(), y: self.y.neg(), z: self.z.neg() }
    }

    pub open spec fn abs_spec(self) -> Vector3 {
        Vector3 { x: self.x.abs(), y: self.y.abs(), z: self.z.abs() }
    }

    /// Componentwise absolute value.
    #[verifier::when_used_as_spec(abs_spec)]
    pub fn abs(self) -> (r: Vector3)
        ensures
            r == self.abs_spec(),
    {
        Vector3 { x: self.x.abs(), y: self.y.abs(), z: self.z.abs() }
    }

    pub open spec fn scale_spec(self, s: Scalar) -> Vector3 {
        Vector3 { x: self.x.mul(s), y: self.y.mul(s), z: self.z.mul(s) }
    }

    /// Every component times `s`.
    #[verifier::when_used_as_spec(scale_spec)]
    pub fn scale(self, s: Scalar) -> (r: Vector3)
        ensures
            r == self.scale_spec(s),
    {
        Vector3 { x: self.x.mul(s), y: self.y.mul(s), z: self.z.mul(s) }
    }

    pub open spec fn div_spec(self, s: Scalar) -> Vector3 {
        Vector3 { x: self.x.div(s), y: self.y.div(s), z: self.z.div(s) }
    }

    /// Every component divided by `s`.
    #[verifier::when_used_as_spec(div_spec)]
    pub fn div(self, s: Scalar) -> (r: Vector3)
        ensures
            r == self.div_spec(s),
    {
        Vector3 { x: self.x.div(s), y: self.y.div(s), z: self.z.div(s) }
    }

    pub open spec fn dot_spec(self, o: Vector3) -> Scalar {
        self.x.mul(o.x).add(self.y.mul(o.y)).add(self.z.mul(o.z))
    }

    /// Scalar product.
    #[verifier::when_used_as_spec(dot_spec)]
    pub fn dot(self, o: Vector3) -> (r: Scalar)
        ensures
            r == self.dot_spec(o),
    {
        self.x.mul(o.x).add(self.y.mul(o.y)).add(self.z.mul(o.z))
    }

    pub open spec fn cross_spec(self, o: Vector3) -> Vector3 {
        Vector3 {
            x: self.y.mul(o.z).sub(self.z.mul(o.y)),
            y: self.z.mul(o.x).sub(self.x.mul(o.z)),
            z: self.x.mul(o.y).sub(self.y.mul(o.x)),
        }
    }

    /// Vector product.
    #[verifier::when_used_as_spec(cross_spec)]
    pub fn cross(self, o: Vector3) -> (r: Vector3)
        ensures
            r == self.cross_spec(o),
    {
        Vector3 {
            x: self.y.mul(o.z).sub(self.z.mul(o.y)),
            y: self.z.mul(o.x).sub(self.x.mul(o.z)),
            z: self.x.mul(o.y).sub(self.y.mul(o.x)),
        }
    }

    /// The exact squared length, in squared raw units.
    pub open spec fn norm_squared_wide_spec(self) -> int {
        self.x@ * self.x@ + self.y@ * self.y@ + self.z@ * self.z@
    }

    /// The exact squared length, in squared raw units. Nothing is rounded,
    /// so comparing two of these compares the lengths exactly.
    pub fn norm_squared_wide(self) -> (r: u128)
        ensures
            r == self.norm_squared_wide_spec(),
    {
        self.x.square_wide() + self.y.square_wide() + self.z.square_wide()
    }

    pub open spec fn norm_squared_spec(self) -> Scalar {
        Scalar::of(self.norm_squared_wide_spec() / (SCALE as int))
    }

    /// The squared length, rounded down and saturated.
    #[verifier::when_used_as_spec(norm_squared_spec)]
    pub fn norm_squared(self) -> (r: Scalar)
        ensures
            r == self.norm_squared_spec(),
    {
        let q: u128 = self.norm_squared_wide() / (SCALE as u128);
        if q > i64::MAX as u128 {
            Scalar::max_value()
        } else {
            Scalar::from_raw(q as i64)
        }
    }

    pub open spec fn norm_spec(self) -> Scalar {
        Scalar::of(isqrt(self.norm_squared_wide_spec()))
    }

    /// The length, rounded down and saturated.
    #[verifier::when_used_as_spec(norm_spec)]
    pub fn norm(self) -> (r: Scalar)
        ensures
            r == self.norm_spec(),
    {
        let len: u128 = isqrt_u128(self.norm_squared_wide());
        if len > i64::MAX as u128 {
            Scalar::max_value()
        } else {
            Scalar::from_raw(len as i64)
        }
    }

    pub open spec fn norm_ceil_spec(self) -> Scalar {
        let n = self.norm_squared_wide_spec();
        if isqrt(n) * isqrt(n) == n {
            Scalar::of(isqrt(n))
        } else {
            Scalar::of(isqrt(n) + 1)
        }
    }

    /// The length, rounded up and saturated: the smallest scalar that is
    /// no shorter than the vector.
    #[verifier::when_used_as_spec(norm_ceil_spec)]
    pub fn norm_ceil(self) -> (r: Scalar)
        ensures
            r == self.norm_ceil_spec(),
    {
        let n: u128 = self.norm_squared_wide();
        let floor: u128 = isqrt_u128(n);
        assert(floor * floor <= n);
        let len: u128 = if floor * floor == n {
            floor
        } else {
            floor + 1
        };
        if len > i64::MAX as u128 {
            Scalar::max_value()
        } else {
            Scalar::from_raw(len as i64)
        }
    }

    pub open spec fn normalize_spec(self) -> Vector3 {
        let len = isqrt(self.norm_squared_wide_spec());
        if len == 0 {
            Vector3::zero()
        } else {
            Vector3 {
                x: unit_component(self.x, len),
                y: unit_component(self.y, len),
                z: unit_component(self.z, len),
            }
        }
    }

    /// The vector divided by its length; the zero vector stays zero.
    #[verifier::when_used_as_spec(normalize_spec)]
    pub fn normalize(self) -> (r: Vector3)
        ensures
            r == self.normalize_spec(),
    {
        let len: u128 = isqrt_u128(self.norm_squared_wide());
        if len == 0 {
            Vector3::zero()
        } else {
            Vector3 {
                x: Scalar::from_raw(wide_div(wide_mul(self.x.raw(), SCALE), len)),
                y: Scalar::from_raw(wide_div(wide_mul(self.y.raw(), SCALE), len)),
                z: Scalar::from_raw(wide_div(wide_mul(self.z.raw(), SCALE), len)),
            }
        }
    }

    /// The vector is of unit length, up to the rounding of a normalisation:
    /// its length lies between one minus two raw units and one plus one.
    pub open spec fn nearly_unit(self) -> bool {
        (SCALE - 2) * (SCALE - 2) <= self.norm_squared_wide_spec() <= (SCALE + 1) * (SCALE + 1)
    }

    /// Every component lies between minus one and one.
    pub open spec fn in_unit_range(self) -> bool {
        &&& -SCALE <= self.x@ <= SCALE
        &&& -SCALE <= self.y@ <= SCALE
        &&& -SCALE <= self.z@ <= SCALE
    }

    /// On every axis the two differ by less than the range of a scalar, so
    /// that their difference is exact whichever way it is taken.
    pub open spec fn near(self, o: Vector3) -> bool {
        &&& -i64::MAX <= self.x@ - o.x@ <= i64::MAX
        &&& -i64::MAX <= self.y@ - o.y@ <= i64::MAX
        &&& -i64::MAX <= self.z@ - o.z@ <= i64::MAX
    }

    /// Every component of `self` is at most that of `o`.
    pub open spec fn le_all_spec(self, o: Vector3) -> bool {
        self.x@ <= o.x@ && self.y@ <= o.y@ && self.z@ <= o.z@
    }

    /// Whether every component of `self` is at most that of `o`.
    #[verifier::when_used_as_spec(le_all_spec)]
    pub fn le_all(self, o: Vector3) -> (r: bool)
        ensures
            r == self.le_all_spec(o),
    {
        self.x.le(o.x) && self.y.le(o.y) && self.z.le(o.z)
    }
}

/// The zero vector is neutral for the sum and the difference.
pub proof fn lemma_vector_add_zero(v: Vector3)
    ensures
        v.add(Vector3::zero()) == v,
        Vector3::zero().add(v) == v,
        v.sub(Vector3::zero()) == v,
{
    lemma_add_zero(v.x);
    lemma_add_zero(v.y);
    lemma_add_zero(v.z);
}

/// Scaling by zero, or scaling the zero vector, gives the zero vector, and
/// so does dividing the zero vector.
pub proof fn lemma_vector_scale_zero(v: Vector3, s: Scalar)
    ensures
        v.scale(Scalar::zero()) == Vector3::zero(),
        Vector3::zero().scale(s) == Vector3::zero(),
        Vector3::zero().div(s) == Vector3::zero(),
{
    lemma_mul_zero(v.x);
    lemma_mul_zero(v.y);
    lemma_mul_zero(v.z);
    lemma_mul_zero(s);
}

/// Scaling by one changes nothing.
pub proof fn lemma_vector_scale_one(v: Vector3)
    ensures
        v.scale(Scalar::one()) == v,
{
    lemma_mul_one(v.x);
    lemma_mul_one(v.y);
    lemma_mul_one(v.z);
}

/// The products and the dot and cross products with the zero vector are
/// zero.
pub proof fn lemma_vector_products_zero(v: Vector3)
    ensures
        v.dot(Vector3::zero()) == Scalar::zero(),
        Vector3::zero().dot(v) == Scalar::zero(),
        v.cross(Vector3::zero()) == Vector3::zero(),
        Vector3::zero().cross(v) == Vector3::zero(),
{
    lemma_mul_zero(v.x);
    lemma_mul_zero(v.y);
    lemma_mul_zero(v.z);
}

/// The zero vector has no direction: it normalises to itself.
pub proof fn lemma_normalize_zero()
    ensures
        Vector3::zero().normalize() == Vector3::zero(),
{
    assert(Vector3::zero().norm_squared_wide_spec() == 0);
    lemma_isqrt_is(0, 0);
}

/// The integer square root of a square is its root.
pub proof fn lemma_isqrt_square(m: int)
    requires
        m >= 0,
    ensures
        isqrt(m * m) == m,
{
    assert(m * m < (m + 1) * (m + 1)) by (nonlinear_arith)
        requires
            m >= 0,
    ;
    lemma_isqrt_is(m, m * m);
}

/// The unit of the axis with the sign of `c`.
pub open spec fn signed_one(c: Scalar) -> Scalar {
    if c@ > 0 {
        Scalar::one()
    } else {
        Scalar::one().neg()
    }
}

/// A vector along an axis normalises exactly: to plus or minus the unit
/// vector of the axis.
pub proof fn lemma_normalize_along_axis(c: Scalar)
    requires
        c@ != 0,
    ensures
        Vector3::new(c, Scalar::zero(), Scalar::zero()).normalize() == Vector3::new(
            signed_one(c),
            Scalar::zero(),
            Scalar::zero(),
        ),
        Vector3::new(Scalar::zero(), c, Scalar::zero()).normalize() == Vector3::new(
            Scalar::zero(),
            signed_one(c),
            Scalar::zero(),
        ),
        Vector3::new(Scalar::zero(), Scalar::zero(), c).normalize() == Vector3::new(
            Scalar::zero(),
            Scalar::zero(),
            signed_one(c),
        ),
{
    let v = Vector3::new(Scalar::zero(), c, Scalar::zero());
    let len = if c@ > 0 {
        c@
    } else {
        -c@
    };
    assert(v.norm_squared_wide_spec() == c@ * c@);
    assert(Vector3::new(c, Scalar::zero(), Scalar::zero()).norm_squared_wide_spec() == c@ * c@);
    assert(Vector3::new(Scalar::zero(), Scalar::zero(), c).norm_squared_wide_spec() == c@ * c@);
    assert(len * len == c@ * c@ && c@ * c@ < (len + 1) * (len + 1)) by (nonlinear_arith)
        requires
            len == c@ || len == -c@,
            len > 0,
    ;
    lemma_isqrt_is(len, c@ * c@);
    let s = SCALE as int;
    assert(0 * s == 0) by (nonlinear_arith);
    assert(0int / len == 0) by (nonlinear_arith)
        requires
            len > 0,
    ;
    if c@ > 0 {
        assert((c@ * s) / len == s && c@ * s >= 0) by (nonlinear_arith)
            requires
                len == c@,
                len > 0,
                s > 0,
        ;
    } else {
        assert((-(c@ * s)) / len == s && c@ * s < 0) by (nonlinear_arith)
            requires
                len == -c@,
                len > 0,
                s > 0,
        ;
    }
}

/// A part of a sum of squares is no longer than the root of the sum, and
/// so its share of a unit lies between minus one and one: if `c * c` is at
/// most `n`, then `c` over the integer square root of `n`, in raw units,
/// is within `SCALE` of zero.
pub proof fn lemma_unit_component_in_range(c: Scalar, n: int)
    requires
        0 <= c@ * c@ <= n,
        isqrt(n) != 0,
        crate::math::scalar::is_isqrt(isqrt(n), n),
    ensures
        -SCALE <= unit_component(c, isqrt(n))@ <= SCALE,
{
    let len = isqrt(n);
    let s = SCALE as int;
    let m = if c@ >= 0 {
        c@
    } else {
        -c@
    };
    assert(m * m == c@ * c@) by (nonlinear_arith)
        requires
            m == c@ || m == -c@,
    ;
    assert(m <= len) by (nonlinear_arith)
        requires
            m * m <= n,
            n < (len + 1) * (len + 1),
            m >= 0,
            len >= 0,
    ;
    assert(0 <= (m * s) / len <= s) by (nonlinear_arith)
        requires
            0 <= m <= len,
            len > 0,
            s > 0,
    ;
    assert(m * s >= 0) by (nonlinear_arith)
        requires
            m >= 0,
            s > 0,
    ;
    if c@ >= 0 {
        assert(c@ * s == m * s);
    } else {
        assert(-(c@ * s) == m * s) by (nonlinear_arith)
            requires
                m == -c@,
        ;
        if m * s == 0 {
            assert(c@ * s == 0);
        }
    }
}

/// Normalising never overshoots: every component of a normalised vector
/// lies between minus one and one.
pub proof fn lemma_normalize_in_unit_range(v: Vector3)
    ensures
        v.normalize().in_unit_range(),
{
    let n = v.norm_squared_wide_spec();
    assert(v.x@ * v.x@ >= 0 && v.y@ * v.y@ >= 0 && v.z@ * v.z@ >= 0) by (nonlinear_arith);
    crate::math::scalar::lemma_isqrt_exists(n);
    if isqrt(n) != 0 {
        lemma_unit_component_in_range(v.x, n);
        lemma_unit_component_in_range(v.y, n);
        lemma_unit_component_in_range(v.z, n);
    }
}

/// Two vectors along the y axis have no cross product, their dot product
/// is the product of their lengths, and scaling the unit vector of the
/// axis gives the vector of that length.
pub proof fn lemma_along_y(a: Scalar, b: Scalar)
    ensures
        Vector3::new(Scalar::zero(), a, Scalar::zero()).cross(
            Vector3::new(Scalar::zero(), b, Scalar::zero()),
        ) == Vector3::zero(),
        Vector3::new(Scalar::zero(), a, Scalar::zero()).dot(
            Vector3::new(Scalar::zero(), b, Scalar::zero()),
        ) == a.mul(b),
        Vector3::new(Scalar::zero(), Scalar::one(), Scalar::zero()).scale(a) == Vector3::new(
            Scalar::zero(),
            a,
            Scalar::zero(),
        ),
{
    lemma_mul_zero(a);
    lemma_mul_zero(b);
    lemma_mul_zero(Scalar::zero());
    lemma_mul_one(a);
    lemma_add_zero(a.mul(b));
}

/// A vector and its opposite are equally long, as long as no component
/// is the smallest scalar.
pub proof fn lemma_norm_of_opposite(v: Vector3)
    requires
        v.x@ > i64::MIN,
        v.y@ > i64::MIN,
        v.z@ > i64::MIN,
    ensures
        v.neg().norm_squared_wide_spec() == v.norm_squared_wide_spec(),
        v.neg().norm() == v.norm(),
        v.neg().neg() == v,
{
    assert((-v.x@) * (-v.x@) == v.x@ * v.x@) by (nonlinear_arith);
    assert((-v.y@) * (-v.y@) == v.y@ * v.y@) by (nonlinear_arith);
    assert((-v.z@) * (-v.z@) == v.z@ * v.z@) by (nonlinear_arith);
}

/// The opposite of a vector normalises to the opposite direction, as long
/// as no component is the smallest scalar.
pub proof fn lemma_normalize_opposite(v: Vector3)
    requires
        v.x@ > i64::MIN,
        v.y@ > i64::MIN,
        v.z@ > i64::MIN,
    ensures
        v.neg().normalize() == v.normalize().neg(),
{
    lemma_norm_of_opposite(v);
    let n = v.norm_squared_wide_spec();
    let len = isqrt(n);
    let s = SCALE as int;
    assert(n >= 0) by (nonlinear_arith)
        requires
            n == v.x@ * v.x@ + v.y@ * v.y@ + v.z@ * v.z@,
    ;
    crate::math::scalar::lemma_isqrt_exists(n);
    if len != 0 {
        assert(v.x@ * v.x@ >= 0 && v.y@ * v.y@ >= 0 && v.z@ * v.z@ >= 0) by (nonlinear_arith);
        lemma_unit_component_in_range(v.x, n);
        lemma_unit_component_in_range(v.y, n);
        lemma_unit_component_in_range(v.z, n);
        lemma_unit_component_opposite(v.x, len);
        lemma_unit_component_opposite(v.y, len);
        lemma_unit_component_opposite(v.z, len);
    }
}

/// The share of the opposite component is the opposite share.
proof fn lemma_unit_component_opposite(c: Scalar, len: int)
    requires
        c@ > i64::MIN,
        len > 0,
        -SCALE <= unit_component(c, len)@ <= SCALE,
    ensures
        unit_component(c.neg(), len) == unit_component(c, len).neg(),
{
    let s = SCALE as int;
    assert((-c@) * s == -(c@ * s)) by (nonlinear_arith);
    if c@ * s == 0 {
        assert(0int / len == 0) by (nonlinear_arith)
            requires
                len > 0,
        ;
    }
}

/// What rounding a share down leaves of it: if `m` is `a * s / len`
/// rounded down, then `m * len` is at most `a * s`, which is less than
/// `(m + 1) * len`, and the same holds of the squares.
proof fn lemma_share_bounds(a: int, m: int, len: int, s: int)
    by (nonlinear_arith)
    requires
        a >= 0,
        s > 0,
        len > 0,
        m == (a * s) / len,
    ensures
        m >= 0,
        (m * m) * (len * len) <= (s * s) * (a * a),
        (s * s) * (a * a) < ((m + 1) * (m + 1)) * (len * len),
{
    let p = a * s;
    assert(m * len <= p < (m + 1) * len);
    assert((m * len) * (m * len) <= p * p);
    assert(p * p < ((m + 1) * len) * ((m + 1) * len));
    assert((m * len) * (m * len) == (m * m) * (len * len));
    assert(((m + 1) * len) * ((m + 1) * len) == ((m + 1) * (m + 1)) * (len * len));
    assert(p * p == (s * s) * (a * a));
}

/// The sum of three numbers, squared, is at most three times the sum of
/// their squares.
proof fn lemma_sum_squared(x: int, y: int, z: int)
    by (nonlinear_arith)
    ensures
        (x + y + z) * (x + y + z) <= 3 * (x * x + y * y + z * z),
{
    assert((x - y) * (x - y) >= 0);
    assert((x - z) * (x - z) >= 0);
    assert((y - z) * (y - z) >= 0);
}

/// Three shares whose squares, each taken one higher, sum to more than a
/// million squared have squares that sum to at least a million less two,
/// squared.
proof fn lemma_shares_nearly_unit(x: int, y: int, z: int)
    requires
        x >= 0,
        y >= 0,
        z >= 0,
        (x + 1) * (x + 1) + (y + 1) * (y + 1) + (z + 1) * (z + 1) > 1_000_000 * 1_000_000,
    ensures
        x * x + y * y + z * z >= 999_998 * 999_998,
{
    let big = x * x + y * y + z * z;
    let sum = x + y + z;
    lemma_sum_squared(x, y, z);
    assert((x + 1) * (x + 1) + (y + 1) * (y + 1) + (z + 1) * (z + 1) == big + 2 * sum + 3)
        by (nonlinear_arith)
        requires
            big == x * x + y * y + z * z,
            sum == x + y + z,
    ;
    if big < 999_998 * 999_998 {
        assert(sum < 1_732_048) by (nonlinear_arith)
            requires
                sum * sum <= 3 * big,
                big < 999_998 * 999_998,
                sum >= 0,
        {
            if sum >= 1_732_048 {
                assert(sum * sum >= 1_732_048 * 1_732_048);
            }
        }
        assert(false);
    }
}

/// Normalising a vector that is at least one unit long gives a vector of
/// unit length, up to rounding: its length lies between one minus two raw
/// units and one plus one.
pub proof fn lemma_normalize_nearly_unit(v: Vector3)
    requires
        isqrt(v.norm_squared_wide_spec()) >= SCALE,
    ensures
        v.normalize().nearly_unit(),
{
    let n = v.norm_squared_wide_spec();
    let len = isqrt(n);
    let s = SCALE as int;
    assert(v.x@ * v.x@ >= 0 && v.y@ * v.y@ >= 0 && v.z@ * v.z@ >= 0) by (nonlinear_arith);
    crate::math::scalar::lemma_isqrt_exists(n);
    lemma_unit_component_in_range(v.x, n);
    lemma_unit_component_in_range(v.y, n);
    lemma_unit_component_in_range(v.z, n);
    let u = v.normalize();
    let (ax, mx) = lemma_share_of_component(v.x, len);
    let (ay, my) = lemma_share_of_component(v.y, len);
    let (az, mz) = lemma_share_of_component(v.z, len);
    lemma_share_bounds(ax, mx, len, s);
    lemma_share_bounds(ay, my, len, s);
    lemma_share_bounds(az, mz, len, s);
    let big = mx * mx + my * my + mz * mz;
    assert(u.norm_squared_wide_spec() == big);
    assert(n == ax * ax + ay * ay + az * az);
    let ll = len * len;
    let ss = s * s;
    assert(ll > 0 && ss > 0 && big >= 0) by (nonlinear_arith)
        requires
            ll == len * len,
            ss == s * s,
            big == mx * mx + my * my + mz * mz,
            len > 0,
            s > 0,
    ;
    // From below: the shares, each taken one higher, are long enough.
    let up = (mx + 1) * (mx + 1) + (my + 1) * (my + 1) + (mz + 1) * (mz + 1);
    assert(ss * n < up * ll) by (nonlinear_arith)
        requires
            ss * (ax * ax) < ((mx + 1) * (mx + 1)) * ll,
            ss * (ay * ay) < ((my + 1) * (my + 1)) * ll,
            ss * (az * az) < ((mz + 1) * (mz + 1)) * ll,
            n == ax * ax + ay * ay + az * az,
            up == (mx + 1) * (mx + 1) + (my + 1) * (my + 1) + (mz + 1) * (mz + 1),
    ;
    assert(up > ss) by (nonlinear_arith)
        requires
            ss * n < up * ll,
            ll <= n,
            ll > 0,
            ss > 0,
    {
        if up <= ss {
            assert(up * ll <= ss * ll);
            assert(ss * ll <= ss * n);
        }
    }
    lemma_shares_nearly_unit(mx, my, mz);
    // From above: the shares are no longer than the vector over its
    // rounded length.
    assert(big * ll <= ss * n) by (nonlinear_arith)
        requires
            (mx * mx) * ll <= ss * (ax * ax),
            (my * my) * ll <= ss * (ay * ay),
            (mz * mz) * ll <= ss * (az * az),
            n == ax * ax + ay * ay + az * az,
            big == mx * mx + my * my + mz * mz,
    ;
    assert(big <= (s + 1) * (s + 1)) by (nonlinear_arith)
        requires
            big * ll <= ss * n,
            n < (len + 1) * (len + 1),
            ll == len * len,
            ss == s * s,
            len >= s,
            s > 0,
            big >= 0,
    {
        // s * (len + 1) <= len * (s + 1), so ss * n < ll * (s + 1)^2.
        assert(s * (len + 1) <= len * (s + 1));
        assert((s * (len + 1)) * (s * (len + 1)) <= (len * (s + 1)) * (len * (s + 1)));
        assert(ss * ((len + 1) * (len + 1)) == (s * (len + 1)) * (s * (len + 1)));
        assert(ll * ((s + 1) * (s + 1)) == (len * (s + 1)) * (len * (s + 1)));
        assert(ss * n <= ss * ((len + 1) * (len + 1)));
        if big > (s + 1) * (s + 1) {
            assert(big * ll > ((s + 1) * (s + 1)) * ll);
        }
    }
}

/// The magnitude of a component and of its share of a unit: the share is
/// the magnitude times a million over the length, rounded down, with the
/// sign of the component.
proof fn lemma_share_of_component(c: Scalar, len: int) -> (r: (int, int))
    requires
        len > 0,
        -SCALE <= unit_component(c, len)@ <= SCALE,
    ensures
        r.0 >= 0,
        r.0 * r.0 == c@ * c@,
        r.1 == (r.0 * SCALE) / len,
        r.1 * r.1 == unit_component(c, len)@ * unit_component(c, len)@,
{
    let s = SCALE as int;
    let a = if c@ >= 0 {
        c@
    } else {
        -c@
    };
    let m = (a * s) / len;
    assert(a * a == c@ * c@) by (nonlinear_arith)
        requires
            a == c@ || a == -c@,
    ;
    assert(a * s >= 0 && m >= 0) by (nonlinear_arith)
        requires
            a >= 0,
            s > 0,
            len > 0,
            m == (a * s) / len,
    ;
    if c@ >= 0 {
        assert(c@ * s == a * s);
        assert(unit_component(c, len)@ == m);
    } else {
        assert(-(c@ * s) == a * s) by (nonlinear_arith)
            requires
                a == -c@,
        ;
        if a * s == 0 {
            assert(c@ * s == 0);
        }
        assert(unit_component(c, len)@ == -m);
        assert((-m) * (-m) == m * m) by (nonlinear_arith);
    }
    (a, m)
}

} // verus!
