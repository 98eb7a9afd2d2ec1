//! Saturating decimal fixed-point numbers.
//!
//! A [`Scalar`] stores `raw`, a count of millionths: the number it stands for
//! is `raw / SCALE`. Every operation computes the exact result over the
//! integers, rounds toward zero where a division is involved, and saturates
//! at the ends of the `i64` range. No operation can fail.
use vstd::prelude::*;

verus! {

/// Raw units per whole unit.
pub const SCALE: i64 = 1_000_000;

/// `x` saturated into the `i64` range.
pub open spec fn clamp(x: int) -> int {
    if x < i64::MIN {
        i64::MIN as int
    } else if x > i64::MAX {
        i64::MAX as int
    } else {
        x
    }
}

/// The quotient of `n` by `d`, rounded toward zero. Meant for `d > 0`.
pub open spec fn tdiv(n: int, d: int) -> int {
    if n >= 0 {
        n / d
    } else {
        -((-n) / d)
    }
}

/// `r` is the integer square root of `n`: the largest `r >= 0` with `r * r <= n`.
pub open spec fn is_isqrt(r: int, n: int) -> bool {
    &&& 0 <= r
    &&& r * r <= n
    &&& n < (r + 1) * (r + 1)
}

/// The integer square root of `n`, for `n >= 0`.
pub open spec fn isqrt(n: int) -> int {
    choose|r: int| is_isqrt(r, n)
}

/// At most one number is the integer square root of `n`.
pub proof fn lemma_isqrt_unique(r1: int, r2: int, n: int)
    requires
        is_isqrt(r1, n),
        is_isqrt(r2, n),
    ensures
        r1 == r2,
{
    if r1 < r2 {
        assert((r1 + 1) * (r1 + 1) <= r2 * r2) by (nonlinear_arith)
            requires
                0 <= r1,
                r1 + 1 <= r2,
        ;
    } else if r2 < r1 {
        assert((r2 + 1) * (r2 + 1) <= r1 * r1) by (nonlinear_arith)
            requires
                0 <= r2,
                r2 + 1 <= r1,
        ;
    }
}

/// A witness settles what `isqrt` is.
pub proof fn lemma_isqrt_is(r: int, n: int)
    requires
        is_isqrt(r, n),
    ensures
        isqrt(n) == r,
{
    lemma_isqrt_unique(isqrt(n), r, n);
}

/// Every number that is not negative has an integer square root.
pub proof fn lemma_isqrt_exists(n: int)
    requires
        n >= 0,
    ensures
        is_isqrt(isqrt(n), n),
    decreases n,
{
    if n == 0 {
        assert(is_isqrt(0, 0));
    } else {
        lemma_isqrt_exists(n - 1);
        let r = isqrt(n - 1);
        if (r + 1) * (r + 1) <= n {
            assert(n < (r + 2) * (r + 2)) by (nonlinear_arith)
                requires
                    n - 1 < (r + 1) * (r + 1),
                    r >= 0,
            ;
            assert(is_isqrt(r + 1, n));
        } else {
            assert(is_isqrt(r, n));
        }
    }
}

/// Integer square root of a 128-bit number, by bisection.
pub fn isqrt_u128(n: u128) -> (r: u128)
    ensures
        r == isqrt(n as int),
        is_isqrt(r as int, n as int),
        r < 0x1_0000_0000_0000_0000,
{
    let mut lo: u128 = 0;
    let mut hi: u128 = 0x1_0000_0000_0000_0000;
    assert(n < hi * hi) by (nonlinear_arith)
        requires
            hi == 0x1_0000_0000_0000_0000,
            n <= u128::MAX,
    ;
    while hi - lo > 1
        invariant
            lo < hi <= 0x1_0000_0000_0000_0000,
            lo * lo <= n,
            n < hi * hi,
        decreases hi - lo,
    {
        let mid: u128 = lo + (hi - lo) / 2;
        assert(mid * mid <= u128::MAX) by (nonlinear_arith)
            requires
                mid < 0x1_0000_0000_0000_0000,
        ;
        if mid * mid <= n {
            lo = mid;
        } else {
            hi = mid;
        }
    }
    proof {
        assert(hi == lo + 1);
        lemma_isqrt_is(lo as int, n as int);
    }
    lo
}

/// The exact product of two 64-bit numbers.
pub fn wide_mul(a: i64, b: i64) -> (p: i128)
    ensures
        p == a * b,
        -0x4000_0000_0000_0000_0000_0000_0000_0000 <= p <= 0x4000_0000_0000_0000_0000_0000_0000_0000,
{
    assert(-0x4000_0000_0000_0000_0000_0000_0000_0000 <= a * b
        <= 0x4000_0000_0000_0000_0000_0000_0000_0000) by (nonlinear_arith)
        requires
            -0x8000_0000_0000_0000 <= a <= 0x7fff_ffff_ffff_ffff,
            -0x8000_0000_0000_0000 <= b <= 0x7fff_ffff_ffff_ffff,
    ;
    (a as i128) * (b as i128)
}

/// `num / den`, rounded toward zero and saturated into the `i64` range.
pub fn wide_div(num: i128, den: u128) -> (r: i64)
    requires
        den > 0,
        num > i128::MIN,
    ensures
        r == clamp(tdiv(num as int, den as int)),
{
    if num >= 0 {
        let q: u128 = (num as u128) / den;
        if q > i64::MAX as u128 {
            i64::MAX
        } else {
            q as i64
        }
    } else {
        let q: u128 = ((-num) as u128) / den;
        if q > i64::MAX as u128 {
            i64::MIN
        } else {
            -(q as i64)
        }
    }
}

/// A fixed-point number: `raw` millionths.
#[derive(Clone, Copy, Debug, PartialEq, Eq, Structural)]
pub struct Scalar {
    pub raw: i64,
}

impl View for Scalar {
    type V = int;

    /// The raw count, as a mathematical integer.
    open spec fn view(&self) -> int {
        self.raw as int
    }
}

impl Scalar {
    /// The scalar whose raw count is `x`, saturated.
    pub open spec fn of(x: int) -> Scalar {
        Scalar { raw: clamp(x) as i64 }
    }

    /// The scalar with the given raw count of millionths.
    pub fn from_raw(raw: i64) -> (r: Scalar)
        ensures
            r@ == raw,
    {
        Scalar { raw }
    }

    /// The raw count of millionths.
    pub fn raw(self) -> (r: i64)
        ensures
            r == self@,
    {
        self.raw
    }

    /// The whole number `n`, saturated.
    pub fn from_int(n: i64) -> (r: Scalar)
        ensures
            r == Scalar::of(n * SCALE),
    {
        let p: i128 = wide_mul(n, SCALE);
        Scalar { raw: wide_div(p, 1) }
    }

    /// The whole number `n`, saturated.
    pub fn from_count(n: usize) -> (r: Scalar)
        ensures
            r == Scalar::of(n * SCALE),
    {
        assert(0 <= n * SCALE <= 0x1_0000_0000_0000_0000 * 1_000_000) by (nonlinear_arith)
            requires
                0 <= n <= 0xffff_ffff_ffff_ffff,
                SCALE == 1_000_000,
        ;
        Scalar { raw: wide_div((n as i128) * (SCALE as i128), 1) }
    }

    pub open spec fn zero_spec() -> Scalar {
        Scalar { raw: 0 }
    }

    /// Zero.
    #[verifier::when_used_as_spec(zero_spec)]
    pub fn zero() -> (r: Scalar)
        ensures
            r == Scalar::zero_spec(),
    {
        Scalar { raw: 0 }
    }

    pub open spec fn one_spec() -> Scalar {
        Scalar { raw: SCALE }
    }

    /// One whole unit.
    #[verifier::when_used_as_spec(one_spec)]
    pub fn one() -> (r: Scalar)
        ensures
            r == Scalar::one_spec(),
    {
        Scalar { raw: SCALE }
    }

    pub open spec fn half_spec() -> Scalar {
        Scalar { raw: 500_000 }
    }

    /// One half.
    #[verifier::when_used_as_spec(half_spec)]
    pub fn half() -> (r: Scalar)
        ensures
            r == Scalar::half_spec(),
    {
        Scalar { raw: 500_000 }
    }

    pub open spec fn max_value_spec() -> Scalar {
        Scalar { raw: i64::MAX }
    }

    /// The largest scalar. It also stands for "unbounded" and "infinite".
    #[verifier::when_used_as_spec(max_value_spec)]
    pub fn max_value() -> (r: Scalar)
        ensures
            r == Scalar::max_value_spec(),
    {
        Scalar { raw: i64::MAX }
    }

    pub open spec fn min_value_spec() -> Scalar {
        Scalar { raw: i64::MIN }
    }

    /// The smallest scalar.
    #[verifier::when_used_as_spec(min_value_spec)]
    pub fn min_value() -> (r: Scalar)
        ensures
            r == Scalar::min_value_spec(),
    {
        Scalar { raw: i64::MIN }
    }

    pub open spec fn epsilon_spec() -> Scalar {
        Scalar { raw: 1 }
    }

    /// The smallest positive scalar: the resolution of the format.
    #[verifier::when_used_as_spec(epsilon_spec)]
    pub fn epsilon() -> (r: Scalar)
        ensures
            r == Scalar::epsilon_spec(),
    {
        Scalar { raw: 1 }
    }

    pub open spec fn add_spec(self, rhs: Scalar) -> Scalar {
        Scalar::of(self@ + rhs@)
    }

    /// Saturating sum.
    #[verifier::when_used_as_spec(add_spec)]
    pub fn add(self, rhs: Scalar) -> (r: Scalar)
        ensures
            r == self.add_spec(rhs),
    {
        Scalar { raw: wide_div(self.raw as i128 + rhs.raw as i128, 1) }
    }

    pub open spec fn sub_spec(self, rhs: Scalar) -> Scalar {
        Scalar::of(self@ - rhs@)
    }

    /// Saturating difference.
    #[verifier::when_used_as_spec(sub_spec)]
    pub fn sub(self, rhs: Scalar) -> (r: Scalar)
        ensures
            r == self.sub_spec(rhs),
    {
        Scalar { raw: wide_div(self.raw as i128 - rhs.raw as i128, 1) }
    }

    pub open spec fn neg_spec(self) -> Scalar {
        Scalar::of(-self@)
    }

    /// Saturating negation: the smallest scalar negates to the largest.
    #[verifier::when_used_as_spec(neg_spec)]
    pub fn neg(self) -> (r: Scalar)
        ensures
            r == self.neg_spec(),
    {
        Scalar { raw: wide_div(-(self.raw as i128), 1) }
    }

    pub open spec fn abs_spec(self) -> Scalar {
        if self@ < 0 {
            self.neg_spec()
        } else {
            self
        }
    }

    /// Saturating absolute value.
    #[verifier::when_used_as_spec(abs_spec)]
    pub fn abs(self) -> (r: Scalar)
        ensures
            r == self.abs_spec(),
    {
        if self.raw < 0 {
            self.neg()
        } else {
            self
        }
    }

    pub open spec fn mul_spec(self, rhs: Scalar) -> Scalar {
        Scalar::of(tdiv(self@ * rhs@, SCALE as int))
    }

    /// Product, rounded toward zero and saturated.
    #[verifier::when_used_as_spec(mul_spec)]
    pub fn mul(self, rhs: Scalar) -> (r: Scalar)
        ensures
            r == self.mul_spec(rhs),
    {
        Scalar { raw: wide_div(wide_mul(self.raw, rhs.raw), SCALE as u128) }
    }

    pub open spec fn div_spec(self, rhs: Scalar) -> Scalar {
        if rhs@ > 0 {
            Scalar::of(tdiv(self@ * SCALE, rhs@))
        } else if rhs@ < 0 {
            Scalar::of(tdiv(-(self@ * SCALE), -rhs@))
        } else if self@ > 0 {
            Scalar::max_value()
        } else if self@ < 0 {
            Scalar::min_value()
        } else {
            Scalar::zero()
        }
    }

    /// Quotient, rounded toward zero and saturated. A division by zero
    /// saturates by the sign of `self`; zero by zero is zero.
    #[verifier::when_used_as_spec(div_spec)]
    pub fn div(self, rhs: Scalar) -> (r: Scalar)
        ensures
            r == self.div_spec(rhs),
    {
        let num: i128 = wide_mul(self.raw, SCALE);
        if rhs.raw > 0 {
            Scalar { raw: wide_div(num, rhs.raw as u128) }
        } else if rhs.raw < 0 {
            Scalar { raw: wide_div(-num, (-(rhs.raw as i128)) as u128) }
        } else if self.raw > 0 {
            Scalar::max_value()
        } else if self.raw < 0 {
            Scalar::min_value()
        } else {
            Scalar::zero()
        }
    }

    pub open spec fn sqrt_spec(self) -> Scalar {
        if self@ <= 0 {
            Scalar::zero()
        } else {
            Scalar::of(isqrt(self@ * SCALE))
        }
    }

    /// Square root, rounded down. Zero for a negative number.
    #[verifier::when_used_as_spec(sqrt_spec)]
    pub fn sqrt(self) -> (r: Scalar)
        ensures
            r == self.sqrt_spec(),
    {
        if self.raw <= 0 {
            Scalar::zero()
        } else {
            let n: i128 = wide_mul(self.raw, SCALE);
            assert(n >= 0) by (nonlinear_arith)
                requires
                    n == self.raw * SCALE,
                    self.raw > 0,
                    SCALE > 0,
            ;
            let root: u128 = isqrt_u128(n as u128);
            Scalar { raw: wide_div(root as i128, 1) }
        }
    }

    pub open spec fn min_spec(self, rhs: Scalar) -> Scalar {
        if self@ <= rhs@ {
            self
        } else {
            rhs
        }
    }

    /// The smaller of two scalars.
    #[verifier::when_used_as_spec(min_spec)]
    pub fn min(self, rhs: Scalar) -> (r: Scalar)
        ensures
            r == self.min_spec(rhs),
    {
        if self.raw <= rhs.raw {
            self
        } else {
            rhs
        }
    }

    pub open spec fn max_spec(self, rhs: Scalar) -> Scalar {
        if self@ >= rhs@ {
            self
        } else {
            rhs
        }
    }

    /// The larger of two scalars.
    #[verifier::when_used_as_spec(max_spec)]
    pub fn max(self, rhs: Scalar) -> (r: Scalar)
        ensures
            r == self.max_spec(rhs),
    {
        if self.raw >= rhs.raw {
            self
        } else {
            rhs
        }
    }

    /// `self < rhs`.
    pub fn lt(self, rhs: Scalar) -> (r: bool)
        ensures
            r == (self@ < rhs@),
    {
        self.raw < rhs.raw
    }

    /// `self <= rhs`.
    pub fn le(self, rhs: Scalar) -> (r: bool)
        ensures
            r == (self@ <= rhs@),
    {
        self.raw <= rhs.raw
    }

    /// `self > rhs`.
    pub fn gt(self, rhs: Scalar) -> (r: bool)
        ensures
            r == (self@ > rhs@),
    {
        self.raw > rhs.raw
    }

    /// `self >= rhs`.
    pub fn ge(self, rhs: Scalar) -> (r: bool)
        ensures
            r == (self@ >= rhs@),
    {
        self.raw >= rhs.raw
    }

    /// The exact square of the raw count, in squared raw units.
    pub fn square_wide(self) -> (r: u128)
        ensures
            r == self@ * self@,
            r <= 0x4000_0000_0000_0000_0000_0000_0000_0000,
    {
        let p: i128 = wide_mul(self.raw, self.raw);
        assert(p >= 0) by (nonlinear_arith)
            requires
                p == self.raw * self.raw,
        ;
        p as u128
    }
}

/// Zero is neutral for the sum and the difference.
pub proof fn lemma_add_zero(a: Scalar)
    ensures
        a.add(Scalar::zero()) == a,
        Scalar::zero().add(a) == a,
        a.sub(Scalar::zero()) == a,
{
}

/// Zero times anything is zero, and zero divided by anything is zero.
pub proof fn lemma_mul_zero(a: Scalar)
    ensures
        a.mul(Scalar::zero()) == Scalar::zero(),
        Scalar::zero().mul(a) == Scalar::zero(),
        Scalar::zero().div(a) == Scalar::zero(),
{
    assert(a@ * 0 == 0 && 0 * a@ == 0 && 0 * SCALE == 0) by (nonlinear_arith);
    if a@ > 0 {
        assert(0int / a@ == 0) by (nonlinear_arith)
            requires
                a@ > 0,
        ;
    } else if a@ < 0 {
        assert(0int / (-a@) == 0) by (nonlinear_arith)
            requires
                a@ < 0,
        ;
    }
}

/// One is neutral for the product, and for the quotient as a divisor:
/// neither rounds.
pub proof fn lemma_mul_one(a: Scalar)
    ensures
        a.mul(Scalar::one()) == a,
        Scalar::one().mul(a) == a,
        a.div(Scalar::one()) == a,
{
    let s = SCALE as int;
    assert(a@ * s == s * a@) by (nonlinear_arith);
    if a@ >= 0 {
        assert((a@ * s) / s == a@) by (nonlinear_arith)
            requires
                s > 0,
        ;
    } else {
        assert(-(a@ * s) == (-a@) * s) by (nonlinear_arith);
        assert(((-a@) * s) / s == -a@) by (nonlinear_arith)
            requires
                s > 0,
        ;
        assert(a@ * s < 0) by (nonlinear_arith)
            requires
                a@ < 0,
                s > 0,
        ;
    }
}

/// The product of two numbers between minus one and one lies between
/// minus one and one.
pub proof fn lemma_mul_in_unit_range(a: Scalar, b: Scalar)
    requires
        -SCALE <= a@ <= SCALE,
        -SCALE <= b@ <= SCALE,
    ensures
        -SCALE <= a.mul(b)@ <= SCALE,
{
    let s = SCALE as int;
    let p = a@ * b@;
    assert(-(s * s) <= p <= s * s) by (nonlinear_arith)
        requires
            p == a@ * b@,
            -s <= a@ <= s,
            -s <= b@ <= s,
    ;
    if p >= 0 {
        assert(0 <= p / s <= s) by (nonlinear_arith)
            requires
                0 <= p <= s * s,
                s > 0,
        ;
    } else {
        assert(0 <= (-p) / s <= s) by (nonlinear_arith)
            requires
                0 <= -p <= s * s,
                s > 0,
        ;
    }
}

/// A factor shrinks a product no less than its bound does: if `q` lies
/// between `-h` and `h`, then `m * q` lies between `-(|m| * h)` and
/// `|m| * h`, as long as the latter does not saturate.
pub proof fn lemma_mul_within(m: Scalar, q: Scalar, h: Scalar, bound: int)
    requires
        -h@ <= q@ <= h@,
        -bound * SCALE <= m@ <= bound * SCALE,
        0 <= bound,
        bound * SCALE <= i64::MAX,
        bound * h@ <= i64::MAX,
    ensures
        0 <= m.abs().mul(h)@ <= bound * h@,
        -m.abs().mul(h)@ <= m.mul(q)@ <= m.abs().mul(h)@,
{
    let s = SCALE as int;
    let a = if m@ >= 0 {
        m@
    } else {
        -m@
    };
    let b = if q@ >= 0 {
        q@
    } else {
        -q@
    };
    assert(m.abs()@ == a);
    assert(0 <= a * b <= a * h@ && a * h@ <= bound * s * h@) by (nonlinear_arith)
        requires
            0 <= a <= bound * s,
            0 <= b <= h@,
    ;
    assert((a * b) / s <= (a * h@) / s && 0 <= (a * b) / s) by (nonlinear_arith)
        requires
            0 <= a * b <= a * h@,
            s > 0,
    ;
    assert((a * h@) / s <= bound * h@) by (nonlinear_arith)
        requires
            0 <= a * h@ <= bound * s * h@,
            s > 0,
    ;
    assert(m@ * q@ == a * b || m@ * q@ == -(a * b)) by (nonlinear_arith)
        requires
            m@ == a || m@ == -a,
            q@ == b || q@ == -b,
    ;
}

/// Dividing by a number between zero and one and multiplying by it again
/// loses at most one raw unit, and nothing where the number divides one.
pub proof fn lemma_div_mul_back(a: Scalar, d: Scalar)
    requires
        0 < d@ <= SCALE,
        -1_000_000_000_000 <= a@ <= 1_000_000_000_000,
    ensures
        a@ - 1 <= a.div(d).mul(d)@ <= a@ + 1,
        a@ >= 0 ==> a.div(d).mul(d)@ <= a@,
        a@ <= 0 ==> a.div(d).mul(d)@ >= a@,
        (SCALE as int) % d@ == 0 ==> a.div(d).mul(d) == a,
{
    let s = SCALE as int;
    let m = if a@ >= 0 {
        a@
    } else {
        -a@
    };
    let q = (m * s) / d@;
    let back = (q * d@) / s;
    // The quotient of the magnitudes, and what comes back of it.
    assert(0 <= q <= m * s && q * d@ <= m * s < q * d@ + d@) by (nonlinear_arith)
        requires
            q == (m * s) / d@,
            0 < d@,
            0 <= m,
            s > 0,
    ;
    assert(m * s <= 1_000_000_000_000 * 1_000_000) by (nonlinear_arith)
        requires
            0 <= m <= 1_000_000_000_000,
            s == 1_000_000,
    ;
    assert(m - 1 <= back <= m) by (nonlinear_arith)
        requires
            back == (q * d@) / s,
            q * d@ <= m * s < q * d@ + d@,
            0 < d@ <= s,
            0 <= q,
    ;
    assert(q * d@ >= 0) by (nonlinear_arith)
        requires
            q >= 0,
            d@ > 0,
    ;
    if s % d@ == 0 {
        assert(q * d@ == m * s) by (nonlinear_arith)
            requires
                q == (m * s) / d@,
                s % d@ == 0,
                0 < d@,
                0 <= m,
                s > 0,
        {
            let k = s / d@;
            assert(s == k * d@);
            assert(m * s == (m * k) * d@);
            assert(((m * k) * d@) / d@ == m * k);
        }
        assert(back == m) by (nonlinear_arith)
            requires
                back == (q * d@) / s,
                q * d@ == m * s,
                s > 0,
        ;
    }
    if a@ >= 0 {
        assert(a@ * s == m * s);
        assert(a.div(d)@ == q);
        assert(a.div(d).mul(d)@ == back);
    } else {
        assert(-(a@ * s) == m * s) by (nonlinear_arith)
            requires
                m == -a@,
        ;
        assert(a@ * s < 0) by (nonlinear_arith)
            requires
                a@ < 0,
                s > 0,
        ;
        assert(a.div(d)@ == -q);
        assert((-q) * d@ == -(q * d@)) by (nonlinear_arith);
        assert(a.div(d).mul(d)@ == -back);
    }
}

/// One plus `e`, times `v`, is `v` plus `e` times `v`: the whole part of
/// the factor does not round. The signs may be moved between the factors.
pub proof fn lemma_mul_one_plus(e: Scalar, v: Scalar)
    requires
        0 <= e@ <= SCALE,
        -1_000_000_000_000 <= v@ <= 1_000_000_000_000,
    ensures
        Scalar::one().add(e).mul(v) == v.add(e.mul(v)),
        Scalar::one().add(e).neg().mul(v.neg()) == v.add(e.mul(v)),
        -v@ <= e.mul(v)@ <= v@ || v@ <= e.mul(v)@ <= -v@,
{
    let s = SCALE as int;
    let m = if v@ >= 0 {
        v@
    } else {
        -v@
    };
    assert(0 <= e@ * m <= s * m && (s + e@) * m == s * m + e@ * m) by (nonlinear_arith)
        requires
            0 <= e@ <= s,
            0 <= m,
    ;
    assert((s * m + e@ * m) / s == m + (e@ * m) / s && 0 <= (e@ * m) / s <= m) by (nonlinear_arith)
        requires
            0 <= e@ * m <= s * m,
            s > 0,
    ;
    assert(s * m <= 1_000_000 * 1_000_000_000_000) by (nonlinear_arith)
        requires
            s == 1_000_000,
            0 <= m <= 1_000_000_000_000,
    ;
    if v@ >= 0 {
        assert((s + e@) * v@ == (s + e@) * m && e@ * v@ == e@ * m);
        assert((-(s + e@)) * (-v@) == (s + e@) * m) by (nonlinear_arith)
            requires
                m == v@,
        ;
    } else {
        assert((s + e@) * v@ == -((s + e@) * m) && e@ * v@ == -(e@ * m)) by (nonlinear_arith)
            requires
                m == -v@,
        ;
        assert((-(s + e@)) * (-v@) == -((s + e@) * m)) by (nonlinear_arith)
            requires
                m == -v@,
        ;
        assert((s + e@) * m >= 0) by (nonlinear_arith)
            requires
                s + e@ >= 0,
                m >= 0,
        ;
    }
}

} // verus!
