use pphysx3d::collision::{sphere_plane, sphere_sphere, CollisionManifold};
use pphysx3d::math::isometry::Isometry3;
use pphysx3d::math::quaternion::Quaternion;
use pphysx3d::math::scalar::Scalar;
use pphysx3d::math::vector::Vector3;
use pphysx3d::shapes::plane::Plane;
use pphysx3d::shapes::sphere::Sphere;

fn fx(x: f64) -> Scalar {
    Scalar::from_raw((x * 1e6).round() as i64)
}

fn v3(x: f64, y: f64, z: f64) -> Vector3 {
    Vector3::new(fx(x), fx(y), fx(z))
}

/// The unit quaternion of the rotation about the y axis by `angle`.
fn about_y(angle: f64) -> Quaternion {
    Quaternion::new(fx((angle / 2.0).cos()), fx(0.0), fx((angle / 2.0).sin()), fx(0.0))
}

fn placed(x: f64, y: f64, z: f64, rotation: Quaternion) -> Isometry3 {
    Isometry3::new(v3(x, y, z), rotation)
}

#[test]
fn sphere_sphere_collision_check() {
    let sphere_1 = Sphere::new(fx(2.0));
    let sphere_2 = Sphere::new(fx(2.0));
    let iso_1 = placed(0.0, 0.0, 0.0, about_y(std::f64::consts::FRAC_PI_2));
    let iso_2 = placed(0.0, 2.0, 2.0, about_y(std::f64::consts::FRAC_PI_2));
    let result = sphere_sphere(&sphere_1, &sphere_2, &iso_1, &iso_2);
    assert_eq!(result, true)
}

#[test]
fn sphere_manifold() {
    let sphere_1 = Sphere::new(fx(2.0));
    let sphere_2 = Sphere::new(fx(2.0));
    let iso_1 = placed(0.0, 0.0, 0.0, about_y(std::f64::consts::FRAC_PI_2));
    let iso_2 = placed(0.0, 3.0, 0.0, about_y(std::f64::consts::FRAC_PI_2));
    let result = CollisionManifold::sphere_sphere(&sphere_1, &sphere_2, &iso_1, &iso_2);
    let mut contacts = Vec::with_capacity(10);
    contacts.push(v3(0.0, 1.5, 0.0));
    let facit = CollisionManifold {
        colliding: true,
        depth: fx(0.5),
        normal: v3(0.0, 1.0, 0.0),
        contacts,
    };
    assert_eq!(facit, result);
}

#[test]
fn sphere_plane_collision_check() {
    let mut sphere = Sphere::new(fx(2.1));
    let plane = Plane::new(v3(0.0, 1.0, 0.0));
    let iso_s = placed(0.0, 0.0, 0.0, about_y(std::f64::consts::FRAC_PI_2));
    let mut iso_p = placed(0.0, 2.0, 0.0, about_y(std::f64::consts::TAU));
    let result = sphere_plane(&sphere, &plane, &iso_s, &iso_p);
    assert_eq!(result, true);

    sphere.radius = fx(1.9);
    let result = sphere_plane(&sphere, &plane, &iso_s, &iso_p);
    assert_eq!(result, false);

    iso_p = placed(0.0, 0.0, 0.0, about_y(std::f64::consts::FRAC_2_PI));
    let result = sphere_plane(&sphere, &plane, &iso_s, &iso_p);
    assert_eq!(result, true);

    iso_p = placed(0.0, 2.0, 0.0, about_y(std::f64::consts::PI));
    let result = sphere_plane(&sphere, &plane, &iso_s, &iso_p);
    assert_eq!(result, false);
}

#[test]
fn sphere_plane_manifold() {
    let sphere = Sphere::new(fx(2.1));
    let iso_s = placed(0.0, 1.0, 0.0, about_y(std::f64::consts::FRAC_PI_2));

    let plane = Plane::new(v3(0.0, 1.0, 0.0));
    let iso_p = placed(0.0, 0.0, 0.0, about_y(std::f64::consts::TAU));

    let result = CollisionManifold::sphere_plane(&sphere, &plane, &iso_s, &iso_p);

    // The plane lies one unit against its normal from the centre, so the
    // offset is -1: the depth is 2.1 - (-1), and the foot of the centre on
    // the plane is the origin.
    let test = CollisionManifold {
        colliding: true,
        normal: v3(0.0, 1.0, 0.0),
        depth: fx(3.1),
        contacts: vec![v3(0.0, 0.0, 0.0)],
    };
    assert_eq!(test, result);
}

#[test]
fn sphere_plane_manifold_with_the_plane_ahead_of_the_sphere() {
    // The sphere stands at the origin and the plane two units along its
    // own normal: the depth is the radius minus the distance.
    let sphere = Sphere::new(fx(2.1));
    let iso_s = placed(0.0, 0.0, 0.0, Quaternion::identity());
    let plane = Plane::new(v3(0.0, 1.0, 0.0));
    let iso_p = placed(0.0, 2.0, 0.0, Quaternion::identity());

    let result = CollisionManifold::sphere_plane(&sphere, &plane, &iso_s, &iso_p);

    assert!(result.colliding);
    assert_eq!(result.depth, fx(0.1));
    assert_eq!(result.contacts, vec![v3(0.0, 2.0, 0.0)]);
    // The centre lies behind the plane, so the normal is turned to it.
    assert_eq!(result.normal, v3(0.0, -1.0, 0.0));
}

#[test]
fn manifold_of_nothing_is_the_fixed_value() {
    let none = CollisionManifold::new();
    assert_eq!(none.colliding, false);
    assert_eq!(none.normal, v3(0.0, 0.0, 1.0));
    assert_eq!(none.depth, Scalar::max_value());
    assert!(none.contacts.is_empty());
}

#[test]
fn spheres_apart_give_the_manifold_of_nothing() {
    let a = Sphere::new(fx(1.0));
    let b = Sphere::new(fx(1.0));
    let iso_a = placed(0.0, 0.0, 0.0, Quaternion::identity());
    let iso_b = placed(2.000001, 0.0, 0.0, Quaternion::identity());
    assert_eq!(sphere_sphere(&a, &b, &iso_a, &iso_b), false);
    assert_eq!(CollisionManifold::sphere_sphere(&a, &b, &iso_a, &iso_b), CollisionManifold::new());
}

#[test]
fn spheres_that_touch_in_one_point_collide() {
    let a = Sphere::new(fx(1.0));
    let b = Sphere::new(fx(1.0));
    let iso_a = placed(0.0, 0.0, 0.0, Quaternion::identity());
    let iso_b = placed(2.0, 0.0, 0.0, Quaternion::identity());
    assert_eq!(sphere_sphere(&a, &b, &iso_a, &iso_b), true);
    let m = CollisionManifold::sphere_sphere(&a, &b, &iso_a, &iso_b);
    assert!(m.colliding);
    assert_eq!(m.depth, fx(0.0));
    assert_eq!(m.normal, v3(1.0, 0.0, 0.0));
    assert_eq!(m.contacts, vec![v3(1.0, 0.0, 0.0)]);
}

#[test]
fn sphere_sphere_normal_points_from_the_first_to_the_second() {
    let a = Sphere::new(fx(2.0));
    let b = Sphere::new(fx(2.0));
    let iso_a = placed(3.0, 0.0, 0.0, Quaternion::identity());
    let iso_b = placed(0.0, 0.0, 0.0, Quaternion::identity());
    let m = CollisionManifold::sphere_sphere(&a, &b, &iso_a, &iso_b);
    assert_eq!(m.normal, v3(-1.0, 0.0, 0.0));
    assert_eq!(m.depth, fx(0.5));
    assert_eq!(m.contacts, vec![v3(1.5, 0.0, 0.0)]);
}

#[test]
fn spheres_on_one_centre_have_no_direction() {
    let a = Sphere::new(fx(1.0));
    let b = Sphere::new(fx(3.0));
    let iso = placed(1.0, 1.0, 1.0, Quaternion::identity());
    let m = CollisionManifold::sphere_sphere(&a, &b, &iso, &iso);
    assert!(m.colliding);
    assert_eq!(m.normal, v3(0.0, 0.0, 0.0));
    assert_eq!(m.depth, fx(2.0));
    assert_eq!(m.contacts, vec![v3(1.0, 1.0, 1.0)]);
}

#[test]
fn sphere_plane_follows_the_rotation_of_the_plane() {
    // A plane with normal +y, turned a quarter about the z axis, has the
    // world normal -x.
    let half = std::f64::consts::FRAC_PI_4;
    let quarter_about_z = Quaternion::new(fx(half.cos()), fx(0.0), fx(0.0), fx(half.sin()));
    let plane = Plane::new(v3(0.0, 1.0, 0.0));
    let iso_p = placed(0.0, 0.0, 0.0, quarter_about_z);
    let sphere = Sphere::new(fx(1.0));

    let far_above = placed(0.0, 5.0, 0.0, Quaternion::identity());
    assert_eq!(sphere_plane(&sphere, &plane, &far_above, &iso_p), true);

    let far_aside = placed(5.0, 0.0, 0.0, Quaternion::identity());
    assert_eq!(sphere_plane(&sphere, &plane, &far_aside, &iso_p), false);
}
