//! A rigid body: a shape, where it stands, how it moves, and what it is
//! made of.
use vstd::prelude::*;
use crate::math::isometry::Isometry3;
use crate::math::matrix::Matrix3;
use crate::math::quaternion::{
    lemma_mul_identity, lemma_normalize_identity, lemma_normalize_in_unit_range,
    lemma_small_rotation_zero, Quaternion,
};
use crate::math::scalar::Scalar;
use crate::math::vector::{
    lemma_vector_add_zero, lemma_vector_products_zero, lemma_vector_scale_one,
    lemma_vector_scale_zero, Vector3,
};
use crate::shapes::plane::Plane;
use crate::shapes::shape::Shape;
use crate::shapes::sphere::Sphere;

verus! {

/// The share of its velocity that a body loses in every step, in raw units.
pub const DAMPING_RAW: i64 = 1_000;

/// A body of the scene.
#[derive(Clone, Copy, Debug, PartialEq, Eq)]
pub struct GameObject {
    /// The collider.
    pub shape: Shape,
    /// Red, green and blue, for whoever draws the body.
    pub color: [u8; 3],
    /// One over the mass. Zero stands for a body that nothing can move.
    pub inverse_mass: Scalar,
    /// The coefficient of restitution, from 0 to 1.
    pub bounciness: Scalar,
    /// The coefficient of friction.
    pub friction: Scalar,
    /// Where the body stands and how it is turned.
    pub position: Isometry3,
    pub velocity: Vector3,
    pub acceleration: Vector3,
    /// The forces applied since the last integration, summed.
    pub force_accum: Vector3,
    pub angular_velocity: Vector3,
    pub angular_acceleration: Vector3,
    /// The torques applied since the last integration, summed.
    pub torque_accum: Vector3,
}

/// The mass that stands for "cannot be moved".
pub open spec fn infinity_spec() -> Scalar {
    Scalar::max_value()
}

/// The mass that stands for "cannot be moved": the largest scalar.
#[verifier::when_used_as_spec(infinity_spec)]
pub fn infinity() -> (r: Scalar)
    ensures
        r == infinity_spec(),
{
    Scalar::max_value()
}

/// The factor that damping leaves of a velocity in one step.
pub open spec fn damping_factor_spec() -> Scalar {
    Scalar::one().sub(Scalar { raw: DAMPING_RAW })
}

/// The factor that damping leaves of a velocity in one step.
#[verifier::when_used_as_spec(damping_factor_spec)]
pub fn damping_factor() -> (r: Scalar)
    ensures
        r == damping_factor_spec(),
{
    Scalar::one().sub(Scalar::from_raw(DAMPING_RAW))
}

/// The inverse mass of a body of the given mass. A mass within one
/// resolution step of the largest scalar is infinite; so is one of at most
/// one resolution step, since no body has no mass.
pub open spec fn inverse_mass_of(mass: Scalar) -> Scalar {
    if mass@ >= infinity()@ - Scalar::epsilon()@ {
        Scalar::zero()
    } else if mass@ <= Scalar::epsilon()@ {
        Scalar::zero()
    } else {
        Scalar::one().div(mass)
    }
}

impl GameObject {
    /// The material constants are in their ranges and the shape is sound.
    pub open spec fn wf(self) -> bool {
        &&& self.shape.wf()
        &&& self.inverse_mass@ >= 0
        &&& 0 <= self.bounciness@ <= Scalar::one()@
        &&& self.friction@ >= 0
    }

    /// Nothing can move the body.
    pub open spec fn immovable(self) -> bool {
        self.inverse_mass@ == 0
    }

    /// `other` is this body with, at most, other velocities.
    pub open spec fn differs_in_velocities_only(self, other: GameObject) -> bool {
        other == (GameObject {
            velocity: other.velocity,
            angular_velocity: other.angular_velocity,
            ..self
        })
    }

    /// `other` is made of what this body is made of: it has the same
    /// shape, colour, inverse mass, bounciness and friction.
    pub open spec fn same_material(self, other: GameObject) -> bool {
        &&& other.shape == self.shape
        &&& other.color == self.color
        &&& other.inverse_mass == self.inverse_mass
        &&& other.bounciness == self.bounciness
        &&& other.friction == self.friction
    }

    pub open spec fn new_spec(
        shape: Shape,
        color: [u8; 3],
        position: Isometry3,
        velocity: [Scalar; 3],
        angular_velocity: [Scalar; 3],
        mass: Scalar,
        bounciness: Scalar,
        friction: Scalar,
    ) -> GameObject {
        GameObject {
            shape,
            color,
            inverse_mass: inverse_mass_of(mass),
            bounciness,
            friction,
            position,
            velocity: Vector3::new(velocity[0], velocity[1], velocity[2]),
            acceleration: Vector3::zero(),
            force_accum: Vector3::zero(),
            angular_velocity: Vector3::new(
                angular_velocity[0],
                angular_velocity[1],
                angular_velocity[2],
            ),
            angular_acceleration: Vector3::zero(),
            torque_accum: Vector3::zero(),
        }
    }

    /// A body at rest in its accelerations and accumulators, with the given
    /// shape, placement, velocities and material. Its inverse mass is one
    /// over `mass`, or zero where `mass` stands for infinity or is too small
    /// to be one; see [`inverse_mass_of`]. The body is sound exactly when
    /// the shape is, the bounciness lies between zero and one, and the
    /// friction is not negative.
    #[verifier::when_used_as_spec(new_spec)]
    pub fn new(
        shape: Shape,
        color: [u8; 3],
        position: Isometry3,
        velocity: [Scalar; 3],
        angular_velocity: [Scalar; 3],
        mass: Scalar,
        bounciness: Scalar,
        friction: Scalar,
    ) -> (r: GameObject)
        ensures
            r == GameObject::new_spec(
                shape,
                color,
                position,
                velocity,
                angular_velocity,
                mass,
                bounciness,
                friction,
            ),
            r.inverse_mass@ >= 0,
            r.wf() == (shape.wf() && 0 <= bounciness@ <= Scalar::one()@ && friction@ >= 0),
    {
        let inverse_mass = if mass.ge(infinity().sub(Scalar::epsilon())) {
            Scalar::zero()
        } else if mass.le(Scalar::epsilon()) {
            Scalar::zero()
        } else {
            proof {
                lemma_inverse_nonnegative(mass);
            }
            Scalar::one().div(mass)
        };
        GameObject {
            shape,
            color,
            inverse_mass,
            bounciness,
            friction,
            position,
            velocity: Vector3::from_array(velocity),
            acceleration: Vector3::zero(),
            force_accum: Vector3::zero(),
            angular_velocity: Vector3::from_array(angular_velocity),
            angular_acceleration: Vector3::zero(),
            torque_accum: Vector3::zero(),
        }
    }

    /// Adds `impulse` to the velocity.
    pub fn add_linear_impulse(&mut self, impulse: Vector3)
        ensures
            *final(self) == (GameObject { velocity: old(self).velocity.add(impulse), ..*old(self) }),
    {
        self.velocity = self.velocity.add(impulse);
    }

    /// The change of angular velocity that `impulse`, applied at
    /// `contact_point`, causes: the inverse inertia tensor applied to the
    /// torque of the impulse about the centre of mass.
    pub open spec fn rotational_impulse(self, contact_point: Vector3, impulse: Vector3) -> Vector3 {
        self.inv_tensor().mul_vec(contact_point.sub(self.position.translation).cross(impulse))
    }

    /// Turns the body as `impulse`, applied at `contact_point`, does.
    pub fn add_rotational_impulse(&mut self, contact_point: &Vector3, impulse: &Vector3)
        ensures
            *final(self) == (GameObject {
                angular_velocity: old(self).angular_velocity.add(
                    old(self).rotational_impulse(*contact_point, *impulse),
                ),
                ..*old(self)
            }),
    {
        let torque = contact_point.sub(self.position.translation).cross(*impulse);
        let change = self.inv_tensor().mul_vec(torque);
        self.angular_velocity = self.angular_velocity.add(change);
    }

    pub open spec fn inv_tensor_spec(&self) -> Matrix3 {
        match self.shape {
            Shape::Sphere(s) => Matrix3::from_diagonal(
                Vector3::repeat(
                    Scalar { raw: 2_500_000 }.mul(self.inverse_mass).div(s.radius.mul(s.radius)),
                ),
            ),
            _ => Matrix3::zeros(),
        }
    }

    /// The inverse of the inertia tensor. For a sphere it is 2.5 times the
    /// inverse mass over the squared radius on the diagonal; every other
    /// shape has the zero matrix, and so does any body that cannot be moved.
    #[verifier::when_used_as_spec(inv_tensor_spec)]
    pub fn inv_tensor(&self) -> (r: Matrix3)
        ensures
            r == self.inv_tensor_spec(),
    {
        match self.shape {
            Shape::Sphere(s) => {
                let entry = Scalar::from_raw(2_500_000).mul(self.inverse_mass).div(
                    s.radius.mul(s.radius),
                );
                Matrix3::from_diagonal(Vector3::repeat(entry))
            },
            _ => Matrix3::zeros(),
        }
    }

    /// The collider.
    pub fn shape(&self) -> (r: &Shape)
        ensures
            *r == self.shape,
    {
        &self.shape
    }

    /// The sum of the forces applied since the last integration.
    pub fn force_accum(&self) -> (r: &Vector3)
        ensures
            *r == self.force_accum,
    {
        &self.force_accum
    }

    /// Adds `force` to the forces that act on the body in this step.
    pub fn add_force(&mut self, force: Vector3)
        ensures
            *final(self) == (GameObject {
                force_accum: old(self).force_accum.add(force),
                ..*old(self)
            }),
    {
        self.force_accum = self.force_accum.add(force);
    }

    /// The sum of the torques applied since the last integration.
    pub fn torque_accum(&self) -> (r: &Vector3)
        ensures
            *r == self.torque_accum,
    {
        &self.torque_accum
    }

    /// Adds `force` to the torques that act on the body in this step.
    pub fn add_angular_force(&mut self, force: Vector3)
        ensures
            *final(self) == (GameObject {
                torque_accum: old(self).torque_accum.add(force),
                ..*old(self)
            }),
    {
        self.torque_accum = self.torque_accum.add(force);
    }

    /// Forgets the forces and torques gathered so far.
    fn clear_accum(&mut self)
        ensures
            *final(self) == (GameObject {
                force_accum: Vector3::zero(),
                torque_accum: Vector3::zero(),
                ..*old(self)
            }),
    {
        self.force_accum = Vector3::zero();
        self.torque_accum = Vector3::zero();
    }

    /// The body one explicit Euler step of length `dt` later.
    ///
    /// The placement moves by the old velocities: the translation by
    /// `dt * velocity`, the rotation by the first-order rotation about
    /// `0.5 * dt * angular_velocity`, brought back to unit length. The
    /// accumulated force and torque then add to the accelerations, the
    /// velocities grow by `dt` times the new accelerations and are damped,
    /// and the accumulators are cleared.
    pub open spec fn integrate_spec(self, dt: Scalar) -> GameObject {
        let acceleration = self.acceleration.add(self.force_accum.scale(self.inverse_mass));
        let angular_acceleration = self.angular_acceleration.add(
            self.inv_tensor().mul_vec(self.torque_accum),
        );
        GameObject {
            position: Isometry3 {
                translation: self.position.translation.add(self.velocity.scale(dt)),
                rotation: self.position.rotation.mul(
                    Quaternion::from_small_rotation(
                        self.angular_velocity.scale(Scalar::half().mul(dt)),
                    ),
                ).normalize(),
            },
            acceleration,
            angular_acceleration,
            velocity: self.velocity.add(acceleration.scale(dt)).scale(damping_factor()),
            angular_velocity: self.angular_velocity.add(angular_acceleration.scale(dt)).scale(
                damping_factor(),
            ),
            force_accum: Vector3::zero(),
            torque_accum: Vector3::zero(),
            ..self
        }
    }

    /// Advances the body by one explicit Euler step of length `dt`.
    pub fn integrate(&mut self, dt: Scalar)
        ensures
            *final(self) == old(self).integrate_spec(dt),
    {
        self.position.translation = self.position.translation.add(self.velocity.scale(dt));
        let turn = Quaternion::from_small_rotation(
            self.angular_velocity.scale(Scalar::half().mul(dt)),
        );
        self.position.rotation = self.position.rotation.mul(turn).normalize();

        self.acceleration = self.acceleration.add(self.force_accum.scale(self.inverse_mass));
        self.angular_acceleration = self.angular_acceleration.add(
            self.inv_tensor().mul_vec(self.torque_accum),
        );

        self.velocity = self.velocity.add(self.acceleration.scale(dt)).scale(damping_factor());
        self.angular_velocity = self.angular_velocity.add(
            self.angular_acceleration.scale(dt),
        ).scale(damping_factor());

        self.clear_accum();
    }

    /// Red, green and blue.
    pub fn color(&self) -> (r: [u8; 3])
        ensures
            r == self.color,
    {
        self.color
    }

    pub open spec fn mass_spec(&self) -> Scalar {
        if self.inverse_mass@ != 0 {
            Scalar::one().div(self.inverse_mass)
        } else {
            infinity()
        }
    }

    /// The mass: one over the inverse mass, or the largest scalar for a
    /// body that cannot be moved.
    #[verifier::when_used_as_spec(mass_spec)]
    pub fn mass(&self) -> (r: Scalar)
        ensures
            r == self.mass_spec(),
    {
        if self.inverse_mass.raw() != 0 {
            Scalar::one().div(self.inverse_mass)
        } else {
            infinity()
        }
    }

    /// The inverse mass. Zero for a body that cannot be moved.
    pub fn inv_mass(&self) -> (r: Scalar)
        ensures
            r == self.inverse_mass,
    {
        self.inverse_mass
    }

    /// The coefficient of restitution.
    pub fn bounciness(&self) -> (r: Scalar)
        ensures
            r == self.bounciness,
    {
        self.bounciness
    }

    /// The coefficient of friction.
    pub fn friction(&self) -> (r: Scalar)
        ensures
            r == self.friction,
    {
        self.friction
    }

    /// Adds to the velocity.
    pub fn add_velocity(&mut self, velocity: [Scalar; 3])
        ensures
            *final(self) == (GameObject {
                velocity: old(self).velocity.add(
                    Vector3::new(velocity[0], velocity[1], velocity[2]),
                ),
                ..*old(self)
            }),
    {
        self.velocity = self.velocity.add(Vector3::from_array(velocity));
    }

    /// Adds to the acceleration.
    pub fn add_acceleration(&mut self, acceleration: [Scalar; 3])
        ensures
            *final(self) == (GameObject {
                acceleration: old(self).acceleration.add(
                    Vector3::new(acceleration[0], acceleration[1], acceleration[2]),
                ),
                ..*old(self)
            }),
    {
        self.acceleration = self.acceleration.add(Vector3::from_array(acceleration));
    }

    /// Adds to the angular velocity.
    pub fn add_angularvelocity(&mut self, velocity: [Scalar; 3])
        ensures
            *final(self) == (GameObject {
                angular_velocity: old(self).angular_velocity.add(
                    Vector3::new(velocity[0], velocity[1], velocity[2]),
                ),
                ..*old(self)
            }),
    {
        self.angular_velocity = self.angular_velocity.add(Vector3::from_array(velocity));
    }

    /// Adds to the angular acceleration.
    pub fn add_angularacceleration(&mut self, acceleration: [Scalar; 3])
        ensures
            *final(self) == (GameObject {
                angular_acceleration: old(self).angular_acceleration.add(
                    Vector3::new(acceleration[0], acceleration[1], acceleration[2]),
                ),
                ..*old(self)
            }),
    {
        self.angular_acceleration = self.angular_acceleration.add(
            Vector3::from_array(acceleration),
        );
    }

    /// Moves the body to `position`. Its rotation stays.
    pub fn set_translation(&mut self, position: [Scalar; 3])
        ensures
            *final(self) == (GameObject {
                position: Isometry3 {
                    translation: Vector3::new(position[0], position[1], position[2]),
                    rotation: old(self).position.rotation,
                },
                ..*old(self)
            }),
    {
        self.position.translation = Vector3::from_array(position);
    }

    /// Turns the body to `rotation`. Its translation stays.
    pub fn set_rotation(&mut self, rotation: Quaternion)
        ensures
            *final(self) == (GameObject {
                position: Isometry3 { translation: old(self).position.translation, rotation },
                ..*old(self)
            }),
    {
        self.position.rotation = rotation;
    }

    /// A sphere with the given radius, placement, velocities and material.
    #[allow(non_snake_case)]
    pub fn Sphere(
        radius: Scalar,
        color: [u8; 3],
        position: [Scalar; 3],
        rotation: Quaternion,
        velocity: [Scalar; 3],
        angular_velocity: [Scalar; 3],
        mass: Scalar,
        bounciness: Scalar,
        friction: Scalar,
    ) -> (r: GameObject)
        ensures
            r == GameObject::new(
                Shape::Sphere(Sphere::new(radius)),
                color,
                Isometry3::new(Vector3::new(position[0], position[1], position[2]), rotation),
                velocity,
                angular_velocity,
                mass,
                bounciness,
                friction,
            ),
    {
        let iso = Isometry3::new(Vector3::from_array(position), rotation);
        GameObject::new(
            Shape::Sphere(Sphere::new(radius)),
            color,
            iso,
            velocity,
            angular_velocity,
            mass,
            bounciness,
            friction,
        )
    }

    /// A sphere at `position` that neither moves nor is turned.
    #[allow(non_snake_case)]
    pub fn Sphere_default(
        radius: Scalar,
        color: [u8; 3],
        position: [Scalar; 3],
        mass: Scalar,
        bounciness: Scalar,
        friction: Scalar,
    ) -> (r: GameObject)
        ensures
            r == GameObject::new(
                Shape::Sphere(Sphere::new(radius)),
                color,
                Isometry3::translation(position[0], position[1], position[2]),
                [Scalar::zero(), Scalar::zero(), Scalar::zero()],
                [Scalar::zero(), Scalar::zero(), Scalar::zero()],
                mass,
                bounciness,
                friction,
            ),
    {
        let iso = Isometry3::translation(position[0], position[1], position[2]);
        GameObject::new(
            Shape::Sphere(Sphere::new(radius)),
            color,
            iso,
            [Scalar::zero(), Scalar::zero(), Scalar::zero()],
            [Scalar::zero(), Scalar::zero(), Scalar::zero()],
            mass,
            bounciness,
            friction,
        )
    }

    /// A plane whose normal is `normal` brought to unit length, with the
    /// given placement, velocities and material.
    #[allow(non_snake_case)]
    pub fn Plane(
        normal: [Scalar; 3],
        color: [u8; 3],
        position: [Scalar; 3],
        rotation: Quaternion,
        velocity: [Scalar; 3],
        angular_velocity: [Scalar; 3],
        mass: Scalar,
        bounciness: Scalar,
        friction: Scalar,
    ) -> (r: GameObject)
        ensures
            r == GameObject::new(
                Shape::Plane(Plane::from_vector3(Vector3::new(normal[0], normal[1], normal[2]))),
                color,
                Isometry3::new(Vector3::new(position[0], position[1], position[2]), rotation),
                velocity,
                angular_velocity,
                mass,
                bounciness,
                friction,
            ),
    {
        let shape = Shape::Plane(Plane::from_vector3(Vector3::from_array(normal)));
        let iso = Isometry3::new(Vector3::from_array(position), rotation);
        GameObject::new(
            shape,
            color,
            iso,
            velocity,
            angular_velocity,
            mass,
            bounciness,
            friction,
        )
    }

    /// A plane through `position` that neither moves nor is turned.
    #[allow(non_snake_case)]
    pub fn Plane_default(
        normal: [Scalar; 3],
        color: [u8; 3],
        position: [Scalar; 3],
        mass: Scalar,
        bounciness: Scalar,
        friction: Scalar,
    ) -> (r: GameObject)
        ensures
            r == GameObject::new(
                Shape::Plane(Plane::from_vector3(Vector3::new(normal[0], normal[1], normal[2]))),
                color,
                Isometry3::translation(position[0], position[1], position[2]),
                [Scalar::zero(), Scalar::zero(), Scalar::zero()],
                [Scalar::zero(), Scalar::zero(), Scalar::zero()],
                mass,
                bounciness,
                friction,
            ),
    {
        let shape = Shape::Plane(Plane::from_vector3(Vector3::from_array(normal)));
        let iso = Isometry3::translation(position[0], position[1], position[2]);
        GameObject::new(
            shape,
            color,
            iso,
            [Scalar::zero(), Scalar::zero(), Scalar::zero()],
            [Scalar::zero(), Scalar::zero(), Scalar::zero()],
            mass,
            bounciness,
            friction,
        )
    }
}

/// One over a positive scalar is not negative.
pub proof fn lemma_inverse_nonnegative(mass: Scalar)
    requires
        mass@ > 0,
    ensures
        Scalar::one().div(mass)@ >= 0,
{
    let n = Scalar::one()@ * crate::math::scalar::SCALE;
    assert(n / mass@ >= 0) by (nonlinear_arith)
        requires
            n >= 0,
            mass@ > 0,
    ;
}

/// A body on which nothing acts moves in a straight line.
///
/// With empty accumulators and no acceleration, one step of length `dt`
/// moves the body by `dt` times its velocity, leaves it without
/// acceleration, and changes its velocities by damping alone. A step of
/// length one moves it by exactly its velocity.
pub proof fn lemma_integrate_free_body(b: GameObject, dt: Scalar)
    requires
        b.force_accum == Vector3::zero(),
        b.torque_accum == Vector3::zero(),
        b.acceleration == Vector3::zero(),
        b.angular_acceleration == Vector3::zero(),
    ensures
        b.integrate_spec(dt).position.translation == b.position.translation.add(
            b.velocity.scale(dt),
        ),
        dt == Scalar::one() ==> b.integrate_spec(dt).position.translation
            == b.position.translation.add(b.velocity),
        b.integrate_spec(dt).velocity == b.velocity.scale(damping_factor()),
        b.integrate_spec(dt).angular_velocity == b.angular_velocity.scale(damping_factor()),
        b.integrate_spec(dt).acceleration == Vector3::zero(),
        b.integrate_spec(dt).angular_acceleration == Vector3::zero(),
{
    lemma_vector_scale_zero(Vector3::zero(), b.inverse_mass);
    lemma_vector_scale_zero(Vector3::zero(), dt);
    lemma_vector_add_zero(Vector3::zero());
    lemma_vector_add_zero(b.velocity);
    lemma_vector_add_zero(b.angular_velocity);
    lemma_vector_scale_one(b.velocity);
    let tensor = b.inv_tensor();
    lemma_vector_products_zero(tensor.r0);
    lemma_vector_products_zero(tensor.r1);
    lemma_vector_products_zero(tensor.r2);
}

/// A body that does not spin keeps its orientation, up to the rounding of
/// bringing it back to unit length. A body that is not turned at all stays
/// so exactly.
pub proof fn lemma_integrate_without_spin(b: GameObject, dt: Scalar)
    requires
        b.angular_velocity == Vector3::zero(),
    ensures
        b.integrate_spec(dt).position.rotation == b.position.rotation.normalize(),
        b.position.rotation == Quaternion::identity() ==> b.integrate_spec(dt).position.rotation
            == Quaternion::identity(),
{
    lemma_normalize_identity();
    lemma_vector_scale_zero(Vector3::zero(), Scalar::half().mul(dt));
    lemma_small_rotation_zero();
    lemma_mul_identity(b.position.rotation);
}

/// Integration clears the accumulators, leaves the shape, the colour and
/// the material as they were, and leaves the rotation with its components
/// between minus one and one.
pub proof fn lemma_integrate_keeps_material(b: GameObject, dt: Scalar)
    ensures
        b.integrate_spec(dt).position.rotation.in_unit_range(),
        b.integrate_spec(dt).force_accum == Vector3::zero(),
        b.integrate_spec(dt).torque_accum == Vector3::zero(),
        b.integrate_spec(dt).shape == b.shape,
        b.integrate_spec(dt).color == b.color,
        b.integrate_spec(dt).inverse_mass == b.inverse_mass,
        b.integrate_spec(dt).bounciness == b.bounciness,
        b.integrate_spec(dt).friction == b.friction,
        b.integrate_spec(dt).wf() == b.wf(),
{
    lemma_normalize_in_unit_range(
        b.position.rotation.mul(
            Quaternion::from_small_rotation(b.angular_velocity.scale(Scalar::half().mul(dt))),
        ),
    );
}

/// A body that cannot be moved cannot be turned either: the inverse of
/// its inertia tensor is zero.
pub proof fn lemma_immovable_tensor(b: GameObject)
    requires
        b.immovable(),
    ensures
        b.inv_tensor() == Matrix3::zeros(),
{
    crate::math::scalar::lemma_mul_zero(Scalar { raw: 2_500_000 });
    match b.shape {
        Shape::Sphere(s) => {
            crate::math::scalar::lemma_mul_zero(s.radius.mul(s.radius));
        },
        _ => {},
    }
}

} // verus!
