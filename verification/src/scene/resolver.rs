//! Impulses and friction at one point of contact.
use vstd::prelude::*;
use crate::math::matrix::Matrix3;
use crate::math::scalar::{lemma_mul_zero, Scalar};
use crate::math::vector::{lemma_vector_scale_zero, Vector3};
use crate::scene::game_object::GameObject;

verus! {

/// The velocity of the second body at the point of contact, seen from the
/// first: `(v2 + w2 x r2) - (v1 + w1 x r1)`, where `r1` and `r2` lead from
/// the centres of mass to the contact.
pub open spec fn relative_velocity(
    b1: GameObject,
    b2: GameObject,
    r1: Vector3,
    r2: Vector3,
) -> Vector3 {
    b2.velocity.add(b2.angular_velocity.cross(r2)).sub(
        b1.velocity.add(b1.angular_velocity.cross(r1)),
    )
}

/// The restitution of a contact: the smaller of the two bounciness values.
pub open spec fn restitution(b1: GameObject, b2: GameObject) -> Scalar {
    b1.bounciness.min(b2.bounciness)
}

/// What the turning of one body adds to the denominator of an impulse
/// along `dir`: `dir . ((I (r x dir)) x r)`, with `I` the inverse of its
/// inertia tensor.
pub open spec fn angular_term(inv_tensor: Matrix3, r: Vector3, dir: Vector3) -> Scalar {
    dir.dot(inv_tensor.mul_vec(r.cross(dir)).cross(r))
}

/// The denominator of an impulse along `dir`: both inverse masses plus
/// both angular terms.
pub open spec fn impulse_denominator(
    b1: GameObject,
    b2: GameObject,
    r1: Vector3,
    r2: Vector3,
    dir: Vector3,
) -> Scalar {
    b1.inverse_mass.add(b2.inverse_mass).add(angular_term(b1.inv_tensor(), r1, dir)).add(
        angular_term(b2.inv_tensor(), r2, dir),
    )
}

/// The size of the impulse along `dir`:
/// `-(1 + e) (v . dir) / denominator`, with `e` the restitution and `v`
/// the relative velocity. It is zero where the denominator is zero, as it
/// is between two bodies that cannot be moved.
#[verifier::opaque]
pub open spec fn impulse_along(
    b1: GameObject,
    b2: GameObject,
    r1: Vector3,
    r2: Vector3,
    dir: Vector3,
) -> Scalar {
    let denominator = impulse_denominator(b1, b2, r1, r2, dir);
    if denominator@ == 0 {
        Scalar::zero()
    } else {
        Scalar::one().add(restitution(b1, b2)).neg().mul(
            relative_velocity(b1, b2, r1, r2).dot(dir),
        ).div(denominator)
    }
}

/// The direction of sliding: the part of the relative velocity that lies
/// in the plane of contact, at unit length. Zero where nothing slides.
#[verifier::opaque]
pub open spec fn tangent(
    b1: GameObject,
    b2: GameObject,
    r1: Vector3,
    r2: Vector3,
    normal: Vector3,
) -> Vector3 {
    let v = relative_velocity(b1, b2, r1, r2);
    v.sub(normal.scale(v.dot(normal))).normalize()
}

/// The friction of a contact: the geometric mean of the two coefficients.
pub open spec fn friction_coefficient(b1: GameObject, b2: GameObject) -> Scalar {
    b1.friction.mul(b2.friction).sqrt()
}

/// `x` raised to at least `lo`, then lowered to at most `hi`.
pub open spec fn clamped(x: Scalar, lo: Scalar, hi: Scalar) -> Scalar {
    x.max(lo).min(hi)
}

/// The size of the friction impulse: the impulse along the tangent, held
/// between minus and plus the friction coefficient times the impulse along
/// the normal.
#[verifier::opaque]
pub open spec fn friction_along(
    b1: GameObject,
    b2: GameObject,
    r1: Vector3,
    r2: Vector3,
    normal: Vector3,
) -> Scalar {
    let j = impulse_along(b1, b2, r1, r2, normal);
    let mu = friction_coefficient(b1, b2);
    clamped(
        impulse_along(b1, b2, r1, r2, tangent(b1, b2, r1, r2, normal)),
        j.neg().mul(mu),
        j.mul(mu),
    )
}

/// What one contact does to one of its two bodies: the size of the change
/// of velocity along the normal, and the change of velocity by friction.
/// Both are scaled by the body's inverse mass.
#[verifier::opaque]
pub open spec fn body_impulse(
    b1: GameObject,
    b2: GameObject,
    r1: Vector3,
    r2: Vector3,
    normal: Vector3,
    inverse_mass: Scalar,
) -> (Scalar, Vector3) {
    (
        impulse_along(b1, b2, r1, r2, normal).mul(inverse_mass),
        tangent(b1, b2, r1, r2, normal).scale(friction_along(b1, b2, r1, r2, normal)).scale(
            inverse_mass,
        ),
    )
}

/// The angular term of one body, computed.
fn angular_term_of(inv_tensor: &Matrix3, r: &Vector3, dir: &Vector3) -> (t: Scalar)
    ensures
        t == angular_term(*inv_tensor, *r, *dir),
{
    dir.dot(inv_tensor.mul_vec(r.cross(*dir)).cross(*r))
}

/// The size of the impulse along `dir`, computed.
fn impulse_along_of(
    b1: &GameObject,
    b2: &GameObject,
    r1: &Vector3,
    r2: &Vector3,
    dir: &Vector3,
) -> (j: Scalar)
    ensures
        j == impulse_along(*b1, *b2, *r1, *r2, *dir),
{
    proof {
        reveal(impulse_along);
    }
    let v = b2.velocity.add(b2.angular_velocity.cross(*r2)).sub(
        b1.velocity.add(b1.angular_velocity.cross(*r1)),
    );
    let e = b1.bounciness().min(b2.bounciness());
    let denominator = b1.inv_mass().add(b2.inv_mass()).add(
        angular_term_of(&b1.inv_tensor(), r1, dir),
    ).add(angular_term_of(&b2.inv_tensor(), r2, dir));
    if denominator.raw() == 0 {
        Scalar::zero()
    } else {
        Scalar::one().add(e).neg().mul(v.dot(*dir)).div(denominator)
    }
}

/// The direction of sliding, computed.
fn tangent_of(
    b1: &GameObject,
    b2: &GameObject,
    r1: &Vector3,
    r2: &Vector3,
    normal: &Vector3,
) -> (t: Vector3)
    ensures
        t == tangent(*b1, *b2, *r1, *r2, *normal),
{
    proof {
        reveal(tangent);
    }
    let v = b2.velocity.add(b2.angular_velocity.cross(*r2)).sub(
        b1.velocity.add(b1.angular_velocity.cross(*r1)),
    );
    v.sub(normal.scale(v.dot(*normal))).normalize()
}

/// The size of the friction impulse, computed from the impulse `j`
/// along the normal and the tangent `t`.
fn friction_along_of(
    b1: &GameObject,
    b2: &GameObject,
    r1: &Vector3,
    r2: &Vector3,
    normal: &Vector3,
    j: Scalar,
    t: &Vector3,
) -> (jt: Scalar)
    requires
        j == impulse_along(*b1, *b2, *r1, *r2, *normal),
        *t == tangent(*b1, *b2, *r1, *r2, *normal),
    ensures
        jt == friction_along(*b1, *b2, *r1, *r2, *normal),
{
    proof {
        reveal(friction_along);
    }
    let mu = b1.friction().mul(b2.friction()).sqrt();
    impulse_along_of(b1, b2, r1, r2, t).max(j.neg().mul(mu)).min(j.mul(mu))
}

/// One body's share of the impulses of a contact, computed from the
/// impulse `j` along the normal, the tangent `t` and the friction `jt`.
fn share_of(
    b1: &GameObject,
    b2: &GameObject,
    r1: &Vector3,
    r2: &Vector3,
    normal: &Vector3,
    j: Scalar,
    t: &Vector3,
    jt: Scalar,
    inverse_mass: Scalar,
) -> (r: (Scalar, Vector3))
    requires
        j == impulse_along(*b1, *b2, *r1, *r2, *normal),
        *t == tangent(*b1, *b2, *r1, *r2, *normal),
        jt == friction_along(*b1, *b2, *r1, *r2, *normal),
    ensures
        r == body_impulse(*b1, *b2, *r1, *r2, *normal, inverse_mass),
{
    proof {
        reveal(body_impulse);
    }
    (j.mul(inverse_mass), t.scale(jt).scale(inverse_mass))
}

/// The impulses of one contact between `b1` and `b2`, the first for `b1`
/// and the second for `b2`. `normal` is the normal of the manifold; `r1`
/// and `r2` lead from the centres of mass to the contact.
pub fn impulses_between(
    b1: &GameObject,
    b2: &GameObject,
    normal: &Vector3,
    r1: &Vector3,
    r2: &Vector3,
) -> (r: [(Scalar, Vector3); 2])
    ensures
        r[0] == body_impulse(*b1, *b2, *r1, *r2, *normal, b1.inverse_mass),
        r[1] == body_impulse(*b1, *b2, *r1, *r2, *normal, b2.inverse_mass),
{
    let j = impulse_along_of(b1, b2, r1, r2, normal);
    let t = tangent_of(b1, b2, r1, r2, normal);
    let jt = friction_along_of(b1, b2, r1, r2, normal, j, &t);
    let first = share_of(b1, b2, r1, r2, normal, j, &t, jt, b1.inv_mass());
    let second = share_of(b1, b2, r1, r2, normal, j, &t, jt, b2.inv_mass());
    [first, second]
}

/// A contact gives nothing to a body that cannot be moved: with an
/// inverse mass of zero, both parts of its impulse are zero.
pub proof fn lemma_body_impulse_immovable(
    b1: GameObject,
    b2: GameObject,
    r1: Vector3,
    r2: Vector3,
    normal: Vector3,
)
    ensures
        body_impulse(b1, b2, r1, r2, normal, Scalar::zero()) == (Scalar::zero(), Vector3::zero()),
{
    reveal(body_impulse);
    lemma_mul_zero(impulse_along(b1, b2, r1, r2, normal));
    lemma_vector_scale_zero(
        tangent(b1, b2, r1, r2, normal).scale(friction_along(b1, b2, r1, r2, normal)),
        Scalar::zero(),
    );
}

} // verus!
