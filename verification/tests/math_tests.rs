use pphysx3d::math::matrix::Matrix3;
use pphysx3d::math::quaternion::Quaternion;
use pphysx3d::math::scalar::{isqrt_u128, wide_div, wide_mul, Scalar, SCALE};
use pphysx3d::math::vector::Vector3;

fn fx(x: f64) -> Scalar {
    Scalar::from_raw((x * 1e6).round() as i64)
}

fn v3(x: f64, y: f64, z: f64) -> Vector3 {
    Vector3::new(fx(x), fx(y), fx(z))
}

#[test]
fn scalar_constants() {
    assert_eq!(SCALE, 1_000_000);
    assert_eq!(Scalar::zero().raw(), 0);
    assert_eq!(Scalar::one().raw(), 1_000_000);
    assert_eq!(Scalar::half().raw(), 500_000);
    assert_eq!(Scalar::epsilon().raw(), 1);
    assert_eq!(Scalar::max_value().raw(), i64::MAX);
    assert_eq!(Scalar::min_value().raw(), i64::MIN);
    assert_eq!(Scalar::from_int(3).raw(), 3_000_000);
    assert_eq!(Scalar::from_int(-3).raw(), -3_000_000);
    assert_eq!(Scalar::from_int(i64::MAX), Scalar::max_value());
    assert_eq!(Scalar::from_int(i64::MIN), Scalar::min_value());
    assert_eq!(Scalar::from_count(7).raw(), 7_000_000);
    assert_eq!(Scalar::from_count(usize::MAX), Scalar::max_value());
}

#[test]
fn scalar_sums_saturate() {
    assert_eq!(fx(1.5).add(fx(2.25)), fx(3.75));
    assert_eq!(fx(1.5).sub(fx(2.25)), fx(-0.75));
    assert_eq!(Scalar::max_value().add(fx(1.0)), Scalar::max_value());
    assert_eq!(Scalar::min_value().sub(fx(1.0)), Scalar::min_value());
    assert_eq!(Scalar::min_value().add(Scalar::max_value()).raw(), -1);
    assert_eq!(fx(2.0).neg(), fx(-2.0));
    assert_eq!(Scalar::min_value().neg(), Scalar::max_value());
    assert_eq!(Scalar::max_value().neg().raw(), i64::MIN + 1);
    assert_eq!(fx(-2.0).abs(), fx(2.0));
    assert_eq!(fx(2.0).abs(), fx(2.0));
    assert_eq!(Scalar::min_value().abs(), Scalar::max_value());
}

#[test]
fn scalar_products_round_toward_zero() {
    assert_eq!(fx(1.5).mul(fx(2.0)), fx(3.0));
    assert_eq!(fx(-1.5).mul(fx(2.0)), fx(-3.0));
    assert_eq!(fx(-1.5).mul(fx(-2.0)), fx(3.0));
    // 0.000003 * 0.5 = 0.0000015, which rounds to 0.000001 either way.
    assert_eq!(Scalar::from_raw(3).mul(fx(0.5)).raw(), 1);
    assert_eq!(Scalar::from_raw(-3).mul(fx(0.5)).raw(), -1);
    assert_eq!(Scalar::from_raw(1).mul(Scalar::from_raw(999_999)).raw(), 0);
    assert_eq!(Scalar::from_raw(-1).mul(Scalar::from_raw(999_999)).raw(), 0);
    assert_eq!(Scalar::max_value().mul(fx(2.0)), Scalar::max_value());
    assert_eq!(Scalar::max_value().mul(fx(-2.0)), Scalar::min_value());
    assert_eq!(Scalar::min_value().mul(Scalar::min_value()), Scalar::max_value());
    assert_eq!(Scalar::max_value().mul(Scalar::one()), Scalar::max_value());
}

#[test]
fn scalar_quotients_round_toward_zero() {
    assert_eq!(fx(3.0).div(fx(2.0)), fx(1.5));
    assert_eq!(fx(-3.0).div(fx(2.0)), fx(-1.5));
    assert_eq!(fx(3.0).div(fx(-2.0)), fx(-1.5));
    assert_eq!(fx(-3.0).div(fx(-2.0)), fx(1.5));
    assert_eq!(fx(1.0).div(fx(3.0)).raw(), 333_333);
    assert_eq!(fx(-1.0).div(fx(3.0)).raw(), -333_333);
    assert_eq!(fx(2.0).div(fx(3.0)).raw(), 666_666);
    assert_eq!(Scalar::max_value().div(fx(0.5)), Scalar::max_value());
    assert_eq!(Scalar::min_value().div(Scalar::min_value()), fx(1.0));
}

#[test]
fn scalar_division_by_zero_saturates() {
    assert_eq!(fx(1.0).div(fx(0.0)), Scalar::max_value());
    assert_eq!(fx(-1.0).div(fx(0.0)), Scalar::min_value());
    assert_eq!(fx(0.0).div(fx(0.0)), fx(0.0));
}

#[test]
fn scalar_square_roots_round_down() {
    assert_eq!(fx(4.0).sqrt(), fx(2.0));
    assert_eq!(fx(0.04).sqrt(), fx(0.2));
    assert_eq!(fx(2.0).sqrt().raw(), 1_414_213);
    assert_eq!(fx(0.0).sqrt(), fx(0.0));
    assert_eq!(fx(-4.0).sqrt(), fx(0.0));
    assert_eq!(Scalar::from_raw(1).sqrt().raw(), 1_000);
    assert_eq!(Scalar::max_value().sqrt().raw(), 3_037_000_499_976);
}

#[test]
fn scalar_comparisons() {
    assert!(fx(1.0).lt(fx(2.0)));
    assert!(!fx(2.0).lt(fx(2.0)));
    assert!(fx(2.0).le(fx(2.0)));
    assert!(fx(3.0).gt(fx(2.0)));
    assert!(!fx(2.0).gt(fx(2.0)));
    assert!(fx(2.0).ge(fx(2.0)));
    assert_eq!(fx(1.0).min(fx(-2.0)), fx(-2.0));
    assert_eq!(fx(1.0).max(fx(-2.0)), fx(1.0));
    assert_eq!(fx(-3.0).square_wide(), 9_000_000_000_000);
    assert_eq!(Scalar::min_value().square_wide(), 1u128 << 126);
}

#[test]
fn wide_helpers() {
    assert_eq!(wide_mul(i64::MIN, i64::MIN), 1i128 << 126);
    assert_eq!(wide_mul(-3, 4), -12);
    assert_eq!(wide_div(7, 2), 3);
    assert_eq!(wide_div(-7, 2), -3);
    assert_eq!(wide_div(1i128 << 100, 1), i64::MAX);
    assert_eq!(wide_div(-(1i128 << 100), 1), i64::MIN);
    assert_eq!(wide_div(-(1i128 << 63), 1), i64::MIN);
    assert_eq!(wide_div((1i128 << 63) - 1, 1), i64::MAX);
}

#[test]
fn integer_square_root() {
    assert_eq!(isqrt_u128(0), 0);
    assert_eq!(isqrt_u128(1), 1);
    assert_eq!(isqrt_u128(3), 1);
    assert_eq!(isqrt_u128(4), 2);
    assert_eq!(isqrt_u128(99), 9);
    assert_eq!(isqrt_u128(100), 10);
    assert_eq!(isqrt_u128(u128::MAX), u64::MAX as u128);
    assert_eq!(isqrt_u128(1u128 << 126), 1u128 << 63);
    assert_eq!(isqrt_u128((1u128 << 126) - 1), (1u128 << 63) - 1);
}

#[test]
fn vector_sums_and_products() {
    let a = v3(1.0, 2.0, 3.0);
    let b = v3(-4.0, 5.0, 0.5);
    assert_eq!(a.add(b), v3(-3.0, 7.0, 3.5));
    assert_eq!(a.sub(b), v3(5.0, -3.0, 2.5));
    assert_eq!(a.neg(), v3(-1.0, -2.0, -3.0));
    assert_eq!(b.abs(), v3(4.0, 5.0, 0.5));
    assert_eq!(a.scale(fx(2.0)), v3(2.0, 4.0, 6.0));
    assert_eq!(a.div(fx(2.0)), v3(0.5, 1.0, 1.5));
    assert_eq!(a.dot(b), fx(7.5));
    assert_eq!(a.cross(b), v3(-14.0, -12.5, 13.0));
    assert_eq!(v3(1.0, 0.0, 0.0).cross(v3(0.0, 1.0, 0.0)), v3(0.0, 0.0, 1.0));
    assert_eq!(Vector3::from_array([fx(1.0), fx(2.0), fx(3.0)]), a);
    assert_eq!(Vector3::repeat(fx(2.0)), v3(2.0, 2.0, 2.0));
    assert_eq!(Vector3::zero(), v3(0.0, 0.0, 0.0));
    assert!(a.le_all(v3(1.0, 2.0, 3.0)));
    assert!(!a.le_all(v3(1.0, 2.0, 2.999999)));
}

#[test]
fn vector_lengths() {
    let v = v3(2.0, 3.0, 6.0);
    assert_eq!(v.norm_squared_wide(), 49_000_000_000_000);
    assert_eq!(v.norm_squared(), fx(49.0));
    assert_eq!(v.norm(), fx(7.0));
    assert_eq!(v3(1.0, 1.0, 1.0).norm().raw(), 1_732_050);
    assert_eq!(v3(0.0, 0.0, 0.0).norm(), fx(0.0));
    // Lengths beyond the range saturate.
    let huge = Vector3::repeat(Scalar::max_value());
    assert_eq!(huge.norm(), Scalar::max_value());
    assert_eq!(huge.norm_squared(), Scalar::max_value());
}

#[test]
fn vector_normalisation() {
    assert_eq!(v3(0.0, 3.0, 0.0).normalize(), v3(0.0, 1.0, 0.0));
    assert_eq!(v3(0.0, -3.0, 0.0).normalize(), v3(0.0, -1.0, 0.0));
    assert_eq!(v3(3.0, 0.0, 4.0).normalize(), v3(0.6, 0.0, 0.8));
    // The zero vector has no direction and stays zero.
    assert_eq!(v3(0.0, 0.0, 0.0).normalize(), v3(0.0, 0.0, 0.0));
    let n = v3(1.0, 1.0, 1.0).normalize();
    assert_eq!(n.x.raw(), 577_350);
    assert_eq!(n, Vector3::repeat(n.x));
}

#[test]
fn matrix_times_vector() {
    let m = Matrix3 { r0: v3(1.0, 2.0, 3.0), r1: v3(0.0, -1.0, 0.0), r2: v3(0.5, 0.5, 0.5) };
    assert_eq!(m.mul_vec(v3(1.0, 1.0, 2.0)), v3(9.0, -1.0, 2.0));
    assert_eq!(m.abs().r1, v3(0.0, 1.0, 0.0));
    assert_eq!(Matrix3::zeros().mul_vec(v3(1.0, 2.0, 3.0)), v3(0.0, 0.0, 0.0));
    let d = Matrix3::from_diagonal(v3(2.0, 3.0, 4.0));
    assert_eq!(d.mul_vec(v3(1.0, 1.0, 1.0)), v3(2.0, 3.0, 4.0));
}

#[test]
fn quaternion_products_and_rotations() {
    let i = Quaternion::new(fx(0.0), fx(1.0), fx(0.0), fx(0.0));
    let j = Quaternion::new(fx(0.0), fx(0.0), fx(1.0), fx(0.0));
    let k = Quaternion::new(fx(0.0), fx(0.0), fx(0.0), fx(1.0));
    assert_eq!(i.mul(j), k);
    assert_eq!(j.mul(i), Quaternion::new(fx(0.0), fx(0.0), fx(0.0), fx(-1.0)));
    assert_eq!(i.mul(i), Quaternion::new(fx(-1.0), fx(0.0), fx(0.0), fx(0.0)));
    assert_eq!(k.mul(Quaternion::identity()), k);
    assert_eq!(k.vector(), v3(0.0, 0.0, 1.0));

    // A half turn about z takes (x, y, z) to (-x, -y, z).
    assert_eq!(k.rotate(v3(1.0, 2.0, 3.0)), v3(-1.0, -2.0, 3.0));
    assert_eq!(Quaternion::identity().rotate(v3(1.0, 2.0, 3.0)), v3(1.0, 2.0, 3.0));
    assert_eq!(
        Quaternion::identity().to_rotation_matrix(),
        Matrix3::from_diagonal(v3(1.0, 1.0, 1.0))
    );
}

#[test]
fn quaternion_normalisation() {
    let q = Quaternion::new(fx(2.0), fx(0.0), fx(0.0), fx(0.0));
    assert_eq!(q.normalize(), Quaternion::identity());
    let q = Quaternion::new(fx(1.0), fx(1.0), fx(1.0), fx(1.0));
    assert_eq!(q.normalize(), Quaternion::new(fx(0.5), fx(0.5), fx(0.5), fx(0.5)));
    assert_eq!(q.norm_squared_wide(), 4_000_000_000_000);
    let nothing = Quaternion::new(fx(0.0), fx(0.0), fx(0.0), fx(0.0));
    assert_eq!(nothing.normalize(), Quaternion::identity());
    // Four squares of the smallest scalar pass the top of the range.
    let huge = Quaternion::new(
        Scalar::min_value(),
        Scalar::min_value(),
        Scalar::min_value(),
        Scalar::min_value(),
    );
    assert_eq!(huge.norm_squared_wide(), u128::MAX);
}

#[test]
fn small_rotation_is_one_plus_half_the_rotation_vector() {
    let q = Quaternion::from_small_rotation(v3(0.2, -0.4, 0.0));
    assert_eq!(q, Quaternion::new(fx(1.0), fx(0.1), fx(-0.2), fx(0.0)));
    assert_eq!(Quaternion::from_small_rotation(v3(0.0, 0.0, 0.0)), Quaternion::identity());
}

#[test]
fn normalised_vectors_are_of_unit_length_up_to_rounding() {
    let low = (1_000_000u128 - 2) * (1_000_000 - 2);
    let high = (1_000_000u128 + 1) * (1_000_000 + 1);
    for v in [
        v3(1.0, 2.0, 3.0),
        v3(-7.5, 0.25, 1000.0),
        v3(0.6, -0.8, 0.0),
        v3(123456.789, -0.000001, 42.0),
    ] {
        let squared = v.normalize().norm_squared_wide();
        assert!(low <= squared && squared <= high);
    }
    // Shorter than one unit, the rounding is coarser: the length of
    // (0.000001, 0.000001, 0) rounds down to 0.000001.
    let tiny = Vector3::new(Scalar::from_raw(1), Scalar::from_raw(1), Scalar::from_raw(0));
    assert_eq!(tiny.normalize(), v3(1.0, 1.0, 0.0));
}

#[test]
fn length_rounded_up_is_no_shorter_than_the_vector() {
    assert_eq!(v3(2.0, 3.0, 6.0).norm_ceil(), fx(7.0));
    assert_eq!(v3(1.0, 1.0, 1.0).norm_ceil().raw(), 1_732_051);
    assert_eq!(v3(0.0, 0.0, 0.0).norm_ceil(), fx(0.0));
    assert_eq!(Vector3::repeat(Scalar::max_value()).norm_ceil(), Scalar::max_value());
}
