use pphysx3d::math::isometry::Isometry3;
use pphysx3d::math::matrix::Matrix3;
use pphysx3d::math::quaternion::Quaternion;
use pphysx3d::math::scalar::Scalar;
use pphysx3d::math::vector::Vector3;
use pphysx3d::scene::game_object::{damping_factor, infinity, GameObject};
use pphysx3d::shapes::cube::Cube;
use pphysx3d::shapes::plane::Plane;
use pphysx3d::shapes::shape::Shape;
use pphysx3d::shapes::sphere::Sphere;

fn fx(x: f64) -> Scalar {
    Scalar::from_raw((x * 1e6).round() as i64)
}

fn v3(x: f64, y: f64, z: f64) -> Vector3 {
    Vector3::new(fx(x), fx(y), fx(z))
}

fn arr(x: f64, y: f64, z: f64) -> [Scalar; 3] {
    [fx(x), fx(y), fx(z)]
}

fn ball(mass: Scalar) -> GameObject {
    GameObject::Sphere_default(fx(2.0), [1, 2, 3], arr(0.0, 0.0, 0.0), mass, fx(0.1), fx(0.2))
}

#[test]
fn new_body_is_at_rest_in_all_but_its_velocities() {
    let body = GameObject::new(
        Shape::Sphere(Sphere::new(fx(2.0))),
        [1, 2, 3],
        Isometry3::translation(fx(1.0), fx(2.0), fx(3.0)),
        arr(4.0, 5.0, 6.0),
        arr(7.0, 8.0, 9.0),
        fx(4.0),
        fx(0.1),
        fx(0.2),
    );
    assert_eq!(*body.shape(), Shape::Sphere(Sphere::new(fx(2.0))));
    assert_eq!(body.color(), [1, 2, 3]);
    assert_eq!(body.position, Isometry3::translation(fx(1.0), fx(2.0), fx(3.0)));
    assert_eq!(body.velocity, v3(4.0, 5.0, 6.0));
    assert_eq!(body.angular_velocity, v3(7.0, 8.0, 9.0));
    assert_eq!(body.acceleration, v3(0.0, 0.0, 0.0));
    assert_eq!(body.angular_acceleration, v3(0.0, 0.0, 0.0));
    assert_eq!(*body.force_accum(), v3(0.0, 0.0, 0.0));
    assert_eq!(*body.torque_accum(), v3(0.0, 0.0, 0.0));
    assert_eq!(body.inv_mass(), fx(0.25));
    assert_eq!(body.mass(), fx(4.0));
    assert_eq!(body.bounciness(), fx(0.1));
    assert_eq!(body.friction(), fx(0.2));
}

#[test]
fn infinite_and_vanishing_masses_cannot_be_moved() {
    assert_eq!(ball(infinity()).inv_mass(), fx(0.0));
    assert_eq!(ball(infinity()).mass(), infinity());
    assert_eq!(ball(Scalar::from_raw(i64::MAX - 1)).inv_mass(), fx(0.0));
    assert_eq!(ball(fx(0.0)).inv_mass(), fx(0.0));
    assert_eq!(ball(Scalar::epsilon()).inv_mass(), fx(0.0));
    assert_eq!(ball(fx(-5.0)).inv_mass(), fx(0.0));
    // The smallest mass that counts: two millionths.
    assert_eq!(ball(Scalar::from_raw(2)).inv_mass(), fx(500_000.0));
    assert_eq!(ball(fx(10.0)).inv_mass(), fx(0.1));
}

#[test]
fn inverse_tensor_of_a_sphere_is_isotropic() {
    // 2.5 * 0.1 / 2^2 = 0.0625
    let entry = fx(0.0625);
    assert_eq!(ball(fx(10.0)).inv_tensor(), Matrix3::from_diagonal(Vector3::repeat(entry)));
    assert_eq!(ball(infinity()).inv_tensor(), Matrix3::zeros());
}

#[test]
fn inverse_tensor_of_other_shapes_is_zero() {
    let cube = GameObject::new(
        Shape::Cube(Cube::new(v3(1.0, 1.0, 1.0))),
        [0, 0, 0],
        Isometry3::identity(),
        arr(0.0, 0.0, 0.0),
        arr(0.0, 0.0, 0.0),
        fx(1.0),
        fx(0.5),
        fx(0.5),
    );
    assert_eq!(cube.inv_tensor(), Matrix3::zeros());
    let plane = GameObject::Plane_default(
        arr(0.0, 1.0, 0.0),
        [0, 0, 0],
        arr(0.0, 0.0, 0.0),
        fx(1.0),
        fx(0.5),
        fx(0.5),
    );
    assert_eq!(plane.inv_tensor(), Matrix3::zeros());
}

#[test]
fn forces_add_up_until_integration_clears_them() {
    let mut body = ball(fx(10.0));
    body.add_force(v3(1.0, 0.0, 0.0));
    body.add_force(v3(2.0, 5.0, 0.0));
    body.add_angular_force(v3(0.0, 0.0, 1.0));
    body.add_angular_force(v3(0.0, 0.0, 1.0));
    assert_eq!(*body.force_accum(), v3(3.0, 5.0, 0.0));
    assert_eq!(*body.torque_accum(), v3(0.0, 0.0, 2.0));
    body.integrate(fx(1.0));
    assert_eq!(*body.force_accum(), v3(0.0, 0.0, 0.0));
    assert_eq!(*body.torque_accum(), v3(0.0, 0.0, 0.0));
    // acceleration = force / mass; angular = tensor * torque
    assert_eq!(body.acceleration, v3(0.3, 0.5, 0.0));
    assert_eq!(body.angular_acceleration, v3(0.0, 0.0, 0.125));
    // velocity = 0.999 * (0 + 1 * acceleration)
    assert_eq!(body.velocity, v3(0.2997, 0.4995, 0.0));
    assert_eq!(body.angular_velocity, v3(0.0, 0.0, 0.124875));
}

#[test]
fn integration_moves_a_free_body_by_its_velocity() {
    let mut body = ball(fx(10.0));
    body.add_velocity(arr(1.0, 0.0, 0.0));
    body.integrate(fx(1.0));
    assert_eq!(body.position.translation, v3(1.0, 0.0, 0.0));
    assert_eq!(body.velocity, v3(0.999, 0.0, 0.0));
    assert_eq!(body.velocity, v3(1.0, 0.0, 0.0).scale(damping_factor()));
    assert_eq!(body.position.rotation, Quaternion::identity());
    assert_eq!(body.acceleration, v3(0.0, 0.0, 0.0));

    body.integrate(fx(0.5));
    assert_eq!(body.position.translation, v3(1.4995, 0.0, 0.0));
    assert_eq!(body.velocity, v3(0.998001, 0.0, 0.0));
}

#[test]
fn integration_turns_a_spinning_body_to_first_order() {
    let mut body = ball(fx(10.0));
    body.add_angularvelocity(arr(0.0, 0.0, 0.4));
    body.integrate(fx(1.0));
    // The turn is about 0.5 * 1 * (0, 0, 0.4); to first order its
    // quaternion is 1 + 0.1 k, of length sqrt(1.01).
    let len = 1.01f64.sqrt();
    let expected = Quaternion::new(fx(1.0 / len), fx(0.0), fx(0.0), fx(0.1 / len));
    let got = body.position.rotation;
    assert!((got.w.raw() - expected.w.raw()).abs() <= 2);
    assert_eq!(got.x.raw(), 0);
    assert_eq!(got.y.raw(), 0);
    assert!((got.z.raw() - expected.z.raw()).abs() <= 2);
}

#[test]
fn impulses_change_velocities_at_once() {
    let mut body = ball(fx(10.0));
    body.add_linear_impulse(v3(1.0, 2.0, 3.0));
    body.add_linear_impulse(v3(1.0, 0.0, 0.0));
    assert_eq!(body.velocity, v3(2.0, 2.0, 3.0));

    // An impulse along y at the point (1, 0, 0) turns about z:
    // tensor * ((1, 0, 0) x (0, 2, 0)) = 0.0625 * (0, 0, 2).
    body.add_rotational_impulse(&v3(1.0, 0.0, 0.0), &v3(0.0, 2.0, 0.0));
    assert_eq!(body.angular_velocity, v3(0.0, 0.0, 0.125));
}

#[test]
fn setters_change_one_part_of_the_placement() {
    let mut body = ball(fx(10.0));
    body.add_acceleration(arr(1.0, 1.0, 1.0));
    body.add_angularacceleration(arr(2.0, 2.0, 2.0));
    assert_eq!(body.acceleration, v3(1.0, 1.0, 1.0));
    assert_eq!(body.angular_acceleration, v3(2.0, 2.0, 2.0));

    let turn = Quaternion::new(fx(0.0), fx(0.0), fx(1.0), fx(0.0));
    body.set_rotation(turn);
    body.set_translation(arr(5.0, 6.0, 7.0));
    assert_eq!(body.position, Isometry3::new(v3(5.0, 6.0, 7.0), turn));
}

#[test]
fn constructors_build_the_shape_and_the_placement() {
    let turn = Quaternion::new(fx(0.0), fx(1.0), fx(0.0), fx(0.0));
    let sphere = GameObject::Sphere(
        fx(1.5),
        [9, 8, 7],
        arr(1.0, 2.0, 3.0),
        turn,
        arr(1.0, 0.0, 0.0),
        arr(0.0, 1.0, 0.0),
        fx(2.0),
        fx(0.3),
        fx(0.4),
    );
    assert_eq!(*sphere.shape(), Shape::Sphere(Sphere::new(fx(1.5))));
    assert_eq!(sphere.position, Isometry3::new(v3(1.0, 2.0, 3.0), turn));
    assert_eq!(sphere.velocity, v3(1.0, 0.0, 0.0));
    assert_eq!(sphere.angular_velocity, v3(0.0, 1.0, 0.0));
    assert_eq!(sphere.inv_mass(), fx(0.5));

    let plane = GameObject::Plane(
        arr(0.0, 0.0, 7.0),
        [9, 8, 7],
        arr(1.0, 2.0, 3.0),
        turn,
        arr(0.0, 0.0, 0.0),
        arr(0.0, 0.0, 0.0),
        infinity(),
        fx(0.3),
        fx(0.4),
    );
    // The normal is brought to unit length.
    assert_eq!(*plane.shape(), Shape::Plane(Plane::new(v3(0.0, 0.0, 1.0))));
    assert_eq!(plane.position, Isometry3::new(v3(1.0, 2.0, 3.0), turn));
    assert_eq!(plane.inv_mass(), fx(0.0));

    let still = GameObject::Plane_default(
        arr(0.0, 2.0, 0.0),
        [9, 8, 7],
        arr(1.0, 2.0, 3.0),
        infinity(),
        fx(0.3),
        fx(0.4),
    );
    assert_eq!(*still.shape(), Shape::Plane(Plane::new(v3(0.0, 1.0, 0.0))));
    assert_eq!(still.position, Isometry3::translation(fx(1.0), fx(2.0), fx(3.0)));
    assert_eq!(still.velocity, v3(0.0, 0.0, 0.0));
}
