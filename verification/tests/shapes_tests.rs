use pphysx3d::math::isometry::Isometry3;
use pphysx3d::math::quaternion::Quaternion;
use pphysx3d::math::scalar::Scalar;
use pphysx3d::math::vector::Vector3;
use pphysx3d::shapes::bounding_volume::{BoundingSphere, BoundingVolume, AABB};
use pphysx3d::shapes::cube::Cube;
use pphysx3d::shapes::plane::{Plane, HALF_MAX_RAW};
use pphysx3d::shapes::shape::Shape;
use pphysx3d::shapes::sphere::Sphere;
use pphysx3d::shapes::utils::IsometryOperations;

fn fx(x: f64) -> Scalar {
    Scalar::from_raw((x * 1e6).round() as i64)
}

fn v3(x: f64, y: f64, z: f64) -> Vector3 {
    Vector3::new(fx(x), fx(y), fx(z))
}

/// The unit quaternion of the rotation about `axis`, of unit length, by
/// `angle`.
fn axis_angle(axis: [f64; 3], angle: f64) -> Quaternion {
    let s = (angle / 2.0).sin();
    Quaternion::new(fx((angle / 2.0).cos()), fx(axis[0] * s), fx(axis[1] * s), fx(axis[2] * s))
}

#[test]
fn test_bounding_sphere_around_sphere() {
    let sphere_big = Sphere::new(fx(2.0));
    let sphere_medium = Sphere::new(fx(1.0));
    let sphere_small = Sphere::new(fx(0.5));

    let isometry = Isometry3::new(
        v3(1.0, 2.0, 3.0),
        axis_angle([0.0, 1.0, 0.0], std::f64::consts::FRAC_PI_2),
    );

    assert!(
        sphere_medium
            .bounding_sphere(&isometry)
            .contains(&sphere_small.bounding_sphere(&isometry))
            == true
    );
    assert!(
        sphere_medium
            .bounding_sphere(&isometry)
            .contains(&sphere_big.bounding_sphere(&isometry))
            == false
    );
}

#[test]
#[allow(non_snake_case)]
fn test_AABB_around_sphere() {
    let sphere_big = Sphere::new(fx(2.0));
    let sphere_medium = Sphere::new(fx(1.0));
    let sphere_small = Sphere::new(fx(0.5));

    let isometry = Isometry3::new(
        v3(1.0, 2.0, 3.0),
        axis_angle([0.0, 1.0, 0.0], std::f64::consts::FRAC_PI_2),
    );

    assert!(
        sphere_medium
            .aabb(&isometry)
            .contains(&sphere_small.aabb(&isometry))
            == true
    );
    assert!(
        sphere_medium
            .aabb(&isometry)
            .contains(&sphere_big.aabb(&isometry))
            == false
    );
}

#[test]
#[allow(non_snake_case)]
fn test_AABB_around_non_rotated_cube() {
    let cube_medium = Cube::new(v3(1.0, 1.0, 1.0));
    let cube_small = Cube::new(v3(0.5, 0.5, 0.5));

    let no_turn = axis_angle([0.0, 1.0, 0.0], 0.0);
    let zero_pos = Isometry3::new(v3(0.0, 0.0, 0.0), no_turn);
    let non_colliding_pos = Isometry3::new(v3(10.0, 0.0, 0.0), no_turn);

    let is_intersecting = cube_medium
        .aabb(&zero_pos)
        .interects(&cube_small.aabb(&non_colliding_pos));
    assert_eq!(false, is_intersecting);

    let pos_to_left = Isometry3::new(v3(-1.0, 0.0, 0.0), no_turn);

    let is_intersecting = cube_medium
        .aabb(&zero_pos)
        .interects(&cube_small.aabb(&pos_to_left));
    assert_eq!(true, is_intersecting);
}

#[test]
#[allow(non_snake_case)]
fn test_AABB_around_rotated_cube() {
    let cube = Cube::new(v3(1.0, 1.0, 1.0));

    // Turned by 45 degrees about the x axis.
    let rotated_pos = Isometry3::new(
        v3(0.0, 0.0, 0.0),
        axis_angle([1.0, 0.0, 0.0], std::f64::consts::FRAC_PI_4),
    );

    let mut pos = Isometry3::new(v3(-1.75, 0.0, 1.75), axis_angle([0.0, 1.0, 0.0], 0.0));

    let is_intersecting = cube.aabb(&rotated_pos).interects(&cube.aabb(&pos));
    assert_eq!(true, is_intersecting);

    pos.translation = pos.translation.add(v3(-0.3, 0.0, 0.0));

    let is_intersecting = cube.aabb(&rotated_pos).interects(&cube.aabb(&pos));
    assert_eq!(false, is_intersecting);
}

#[test]
fn aabb_of_a_rotated_cube_covers_its_corners() {
    // A cube with half extents 1, turned by 45 degrees about the z axis,
    // reaches the square root of two along x and y.
    let cube = Cube::new(v3(1.0, 1.0, 1.0));
    let pos = Isometry3::new(
        v3(0.0, 0.0, 0.0),
        axis_angle([0.0, 0.0, 1.0], std::f64::consts::FRAC_PI_4),
    );
    let bounds = cube.aabb(&pos);
    let root_two = 2f64.sqrt();
    assert!((bounds.maxs().x.raw() - fx(root_two).raw()).abs() <= 10);
    assert!((bounds.maxs().y.raw() - fx(root_two).raw()).abs() <= 10);
    assert!((bounds.maxs().z.raw() - fx(1.0).raw()).abs() <= 10);
    assert!((bounds.mins().x.raw() + fx(root_two).raw()).abs() <= 10);
    // The corner (1, 1, 1) of the cube turns to (0, sqrt 2, 1).
    let corner = pos.global_vector(&v3(1.0, 1.0, 1.0));
    assert!(corner.y.raw() <= bounds.maxs().y.raw() + 10);
    assert!(corner.x.raw().abs() <= 10);
}

#[test]
fn aabb_of_an_unrotated_cube_is_its_half_extents() {
    let cube = Cube::new(v3(1.0, 2.0, 3.0));
    let pos = Isometry3::translation(fx(10.0), fx(20.0), fx(30.0));
    let bounds = cube.aabb(&pos);
    assert_eq!(bounds.mins(), v3(9.0, 18.0, 27.0));
    assert_eq!(bounds.maxs(), v3(11.0, 22.0, 33.0));
}

#[test]
fn bounding_sphere_of_a_cube_reaches_its_corner() {
    let cube = Cube::new(v3(1.0, 1.0, 1.0));
    let pos = Isometry3::translation(fx(1.0), fx(2.0), fx(3.0));
    let ball = cube.bounding_sphere(&pos);
    assert_eq!(ball.center, v3(1.0, 2.0, 3.0));
    // The square root of three, rounded up.
    assert_eq!(ball.radius.raw(), 1_732_051);
}

#[test]
fn aabb_of_a_sphere_is_centre_plus_and_minus_radius() {
    let sphere = Sphere::new(fx(2.5));
    let pos = Isometry3::new(
        v3(1.0, -2.0, 3.0),
        axis_angle([0.0, 1.0, 0.0], std::f64::consts::FRAC_PI_2),
    );
    let bounds = sphere.aabb(&pos);
    assert_eq!(bounds.mins(), v3(-1.5, -4.5, 0.5));
    assert_eq!(bounds.maxs(), v3(3.5, 0.5, 5.5));
    let ball = sphere.bounding_sphere(&pos);
    assert_eq!(ball.center, v3(1.0, -2.0, 3.0));
    assert_eq!(ball.radius, fx(2.5));
}

#[test]
fn volumes_of_a_plane_reach_half_of_the_largest_scalar() {
    let plane = Plane::from_vector3(v3(0.0, 3.0, 0.0));
    assert_eq!(*plane.normal(), v3(0.0, 1.0, 0.0));
    let pos = Isometry3::translation(fx(5.0), fx(5.0), fx(5.0));
    let far = Scalar::from_raw(HALF_MAX_RAW);
    let bounds = plane.aabb(&pos);
    assert_eq!(bounds.maxs(), Vector3::repeat(far));
    assert_eq!(bounds.mins(), Vector3::repeat(Scalar::from_raw(-HALF_MAX_RAW)));
    let ball = plane.bounding_sphere(&pos);
    assert_eq!(ball.center, v3(0.0, 0.0, 0.0));
    assert_eq!(ball.radius, far);
    // The sum of two such radii does not saturate.
    assert_eq!(far.add(far).raw(), i64::MAX - 1);
}

#[test]
fn aabb_intersection_is_inclusive_and_symmetric() {
    let a = AABB::new(v3(0.0, 0.0, 0.0), v3(1.0, 1.0, 1.0));
    // Shares the face x = 1.
    let touching = AABB::new(v3(1.0, 0.0, 0.0), v3(2.0, 1.0, 1.0));
    // Shares only the corner (1, 1, 1).
    let corner = AABB::new(v3(1.0, 1.0, 1.0), v3(2.0, 2.0, 2.0));
    // One raw unit beyond the face.
    let apart = AABB::new(v3(1.000001, 0.0, 0.0), v3(2.0, 1.0, 1.0));
    let inside = AABB::new(v3(0.25, 0.25, 0.25), v3(0.75, 0.75, 0.75));

    assert!(a.interects(&touching));
    assert!(touching.interects(&a));
    assert!(a.interects(&corner));
    assert!(corner.interects(&a));
    assert!(!a.interects(&apart));
    assert!(!apart.interects(&a));
    assert!(a.interects(&inside));
    assert!(inside.interects(&a));
    assert!(a.interects(&a));
}

#[test]
fn aabb_apart_on_one_axis_only_do_not_intersect() {
    let a = AABB::new(v3(0.0, 0.0, 0.0), v3(1.0, 1.0, 1.0));
    let above = AABB::new(v3(0.0, 0.0, 5.0), v3(1.0, 1.0, 6.0));
    assert!(!a.interects(&above));
    assert!(!above.interects(&a));
}

#[test]
fn aabb_contains_needs_both_corners_inside() {
    let a = AABB::new(v3(0.0, 0.0, 0.0), v3(1.0, 1.0, 1.0));
    let inside = AABB::new(v3(0.25, 0.25, 0.25), v3(0.75, 0.75, 0.75));
    let poking = AABB::new(v3(0.25, 0.25, 0.25), v3(0.75, 0.75, 1.5));
    assert!(a.contains(&inside));
    assert!(!inside.contains(&a));
    assert!(!a.contains(&poking));
    assert!(a.contains(&a));
}

#[test]
fn aabb_from_half_extents_and_translate() {
    let mut a = AABB::from_half_extents(v3(1.0, 1.0, 1.0), v3(0.5, 1.0, 2.0));
    assert_eq!(a.mins(), v3(0.5, 0.0, -1.0));
    assert_eq!(a.maxs(), v3(1.5, 2.0, 3.0));
    a.translate(&v3(1.0, -1.0, 0.5));
    assert_eq!(a.mins(), v3(1.5, -1.0, -0.5));
    assert_eq!(a.maxs(), v3(2.5, 1.0, 3.5));
}

#[test]
fn bounding_spheres_intersect_up_to_the_sum_of_their_radii() {
    let a = BoundingSphere::new(fx(1.0), v3(0.0, 0.0, 0.0));
    let touching = BoundingSphere::new(fx(2.0), v3(3.0, 0.0, 0.0));
    let apart = BoundingSphere::new(fx(2.0), v3(3.000001, 0.0, 0.0));
    // 2^2 + 2^2 + 1^2 = 3^2.
    let diagonal = BoundingSphere::new(fx(2.0), v3(2.0, 2.0, 1.0));
    assert!(a.interects(&touching));
    assert!(touching.interects(&a));
    assert!(!a.interects(&apart));
    assert!(a.interects(&diagonal));
}

#[test]
fn bounding_sphere_contains_up_to_the_difference_of_the_radii() {
    let big = BoundingSphere::new(fx(3.0), v3(0.0, 0.0, 0.0));
    let at_the_rim = BoundingSphere::new(fx(1.0), v3(2.0, 0.0, 0.0));
    let over_the_rim = BoundingSphere::new(fx(1.0), v3(2.000001, 0.0, 0.0));
    assert!(big.contains(&at_the_rim));
    assert!(!big.contains(&over_the_rim));
    assert!(!at_the_rim.contains(&big));
    assert!(big.contains(&big));
}

#[test]
fn shape_tells_its_variant() {
    let sphere = Shape::Sphere(Sphere::new(fx(1.0)));
    let plane = Shape::Plane(Plane::new(v3(0.0, 1.0, 0.0)));
    let cube = Shape::Cube(Cube::new(v3(1.0, 1.0, 1.0)));

    assert_eq!(sphere.as_sphere(), Ok(&Sphere::new(fx(1.0))));
    assert_eq!(sphere.as_plane(), Err(()));
    assert_eq!(sphere.as_cube(), Err(()));

    assert_eq!(plane.as_plane(), Ok(&Plane::new(v3(0.0, 1.0, 0.0))));
    assert_eq!(plane.as_sphere(), Err(()));
    assert_eq!(plane.as_cube(), Err(()));

    assert_eq!(cube.as_cube(), Ok(&Cube::new(v3(1.0, 1.0, 1.0))));
    assert_eq!(cube.as_sphere(), Err(()));
    assert_eq!(cube.as_plane(), Err(()));
}

#[test]
fn shape_volumes_are_those_of_its_variant() {
    let pos = Isometry3::translation(fx(1.0), fx(2.0), fx(3.0));
    let sphere = Sphere::new(fx(1.0));
    let cube = Cube::new(v3(1.0, 2.0, 3.0));
    let plane = Plane::new(v3(0.0, 1.0, 0.0));
    assert_eq!(Shape::Sphere(sphere).compute_aabb(&pos), sphere.aabb(&pos));
    assert_eq!(Shape::Cube(cube).compute_aabb(&pos), cube.aabb(&pos));
    assert_eq!(Shape::Plane(plane).compute_aabb(&pos), plane.aabb(&pos));
    assert_eq!(Shape::Sphere(sphere).compute_bounding_sphere(&pos), sphere.bounding_sphere(&pos));
    assert_eq!(Shape::Cube(cube).compute_bounding_sphere(&pos), cube.bounding_sphere(&pos));
    assert_eq!(Shape::Plane(plane).compute_bounding_sphere(&pos), plane.bounding_sphere(&pos));
}

#[test]
fn global_vector_turns_but_does_not_move() {
    // A quarter turn about the z axis takes x to y.
    let pos = Isometry3::new(
        v3(100.0, 100.0, 100.0),
        axis_angle([0.0, 0.0, 1.0], std::f64::consts::FRAC_PI_2),
    );
    let turned = pos.global_vector(&v3(1.0, 0.0, 0.0));
    assert!(turned.x.raw().abs() <= 5);
    assert!((turned.y.raw() - 1_000_000).abs() <= 5);
    assert_eq!(turned.z.raw(), 0);
    assert_eq!(Isometry3::identity().global_vector(&v3(1.0, 2.0, 3.0)), v3(1.0, 2.0, 3.0));
}
