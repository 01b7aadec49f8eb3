use asteroids::rotation::{Rotation, COMPONENT_LIMIT, ONE};
use cgmath::{Quaternion, Rotation as CgRotation, Rotation3, Vector3};

fn to_fixed(q: Quaternion<f64>) -> Rotation {
    let one = ONE as f64;
    Rotation::new(
        (q.s * one).round() as i64,
        (q.v.x * one).round() as i64,
        (q.v.y * one).round() as i64,
        (q.v.z * one).round() as i64,
    )
}

fn to_float(r: &Rotation) -> Quaternion<f64> {
    let (w, x, y, z) = r.components();
    let one = ONE as f64;
    Quaternion::new(w as f64 / one, x as f64 / one, y as f64 / one, z as f64 / one)
}

fn close(a: Quaternion<f64>, b: Quaternion<f64>, tolerance: f64) -> bool {
    (a.s - b.s).abs() <= tolerance
        && (a.v.x - b.v.x).abs() <= tolerance
        && (a.v.y - b.v.y).abs() <= tolerance
        && (a.v.z - b.v.z).abs() <= tolerance
}

fn samples() -> Vec<Quaternion<f64>> {
    vec![
        Quaternion::from_angle_z(cgmath::Deg(0.0)),
        Quaternion::from_angle_z(cgmath::Deg(90.0)),
        Quaternion::from_angle_z(cgmath::Deg(-37.0)),
        Quaternion::from_angle_x(cgmath::Deg(123.0)),
        Quaternion::from_axis_angle(Vector3::new(0.6, 0.0, 0.8), cgmath::Deg(200.0)),
        Quaternion::from_axis_angle(Vector3::new(0.0, 1.0, 0.0), cgmath::Deg(5.0)),
    ]
}

#[test]
fn identity_and_zero_have_their_components() {
    assert_eq!(Rotation::identity().components(), (ONE, 0, 0, 0));
    assert_eq!(Rotation::zero().components(), (0, 0, 0, 0));
}

#[test]
fn new_limits_components() {
    let r = Rotation::new(i64::MAX, i64::MIN, 5, -COMPONENT_LIMIT - 1);
    assert_eq!(r.components(), (COMPONENT_LIMIT, -COMPONENT_LIMIT, 5, -COMPONENT_LIMIT));
}

#[test]
fn conjugate_negates_the_vector_part() {
    assert_eq!(Rotation::new(1, 2, -3, 4).conjugate().components(), (1, -2, 3, -4));
}

#[test]
fn compose_with_identity_changes_nothing() {
    let r = Rotation::new(707_107, 0, 0, 707_107);
    assert_eq!(r.compose(&Rotation::identity()).components(), r.components());
    assert_eq!(Rotation::identity().compose(&r).components(), r.components());
}

#[test]
fn compose_has_exact_components() {
    // (1 + 2i + 3j + 4k)(5 + 6i + 7j + 8k) = -60 + 12i + 30j + 24k
    let a = Rotation::new(ONE, 2 * ONE, 3 * ONE, 4 * ONE);
    let b = Rotation::new(5 * ONE, 6 * ONE, 7 * ONE, 8 * ONE);
    assert_eq!(a.compose(&b).components(), (-60 * ONE, 12 * ONE, 30 * ONE, 24 * ONE));
}

#[test]
fn compose_follows_the_quaternion_product() {
    for a in samples() {
        for b in samples() {
            let got = to_float(&to_fixed(a).compose(&to_fixed(b)));
            assert!(close(got, a * b, 1e-5), "{:?} * {:?}", a, b);
        }
    }
}

#[test]
fn compose_limits_its_result() {
    let big = Rotation::new(COMPONENT_LIMIT, 0, 0, 0);
    assert_eq!(big.compose(&big).components(), (COMPONENT_LIMIT, 0, 0, 0));
}

#[test]
fn forward_of_a_quarter_turn_points_left() {
    assert_eq!(Rotation::identity().forward(), (0, ONE));
    let quarter = Rotation::new(707_107, 0, 0, 707_107);
    assert_eq!(quarter.forward(), (-ONE, 0));
    let back = Rotation::new(0, 0, 0, ONE);
    assert_eq!(back.forward(), (0, -ONE));
}

#[test]
fn forward_follows_the_rotated_axis() {
    for q in samples() {
        let v = q.rotate_vector(Vector3::unit_y());
        let (x, y) = to_fixed(q).forward();
        assert!((x as f64 / ONE as f64 - v.x).abs() <= 1e-5);
        assert!((y as f64 / ONE as f64 - v.y).abs() <= 1e-5);
    }
}

#[test]
fn normalized_has_length_one() {
    assert_eq!(Rotation::new(3 * ONE, 0, 0, 4 * ONE).normalized().components(), (600_000, 0, 0, 800_000));
    assert_eq!(Rotation::new(0, -5, 0, 0).normalized().components(), (0, -ONE, 0, 0));
    assert_eq!(Rotation::zero().normalized().components(), (0, 0, 0, 0));
}

#[test]
fn nlerp_has_exact_components() {
    let a = Rotation::identity();
    let b = Rotation::new(0, 0, 0, ONE);
    // Halfway between 1 and k: the blend (0.5, 0, 0, 0.5), whose length
    // rounds down to 0.707106, rescaled.
    assert_eq!(a.nlerp(&b, 500).components(), (707_107, 0, 0, 707_107));
    assert_eq!(a.nlerp(&b, 0).components(), (ONE, 0, 0, 0));
    assert_eq!(a.nlerp(&b, 1000).components(), (0, 0, 0, ONE));
}

#[test]
fn nlerp_takes_the_shorter_arc() {
    let a = Rotation::identity();
    let b = Rotation::new(-ONE, 0, 0, 0);
    assert_eq!(a.nlerp(&b, 500).components(), (ONE, 0, 0, 0));
}

#[test]
fn nlerp_toward_zero_keeps_the_rotation() {
    let a = Rotation::new(600_000, 0, 0, 800_000);
    assert_eq!(a.nlerp(&Rotation::zero(), 16).components(), (600_000, 0, 0, 800_000));
}

#[test]
fn nlerp_follows_the_float_interpolation() {
    for a in samples() {
        for b in samples() {
            for amount in [0_u64, 16, 250, 999, 1000] {
                if (a.s * b.s + a.v.x * b.v.x + a.v.y * b.v.y + a.v.z * b.v.z).abs() < 1e-3 {
                    continue;
                }
                let expected = a.nlerp(b, amount as f64 / 1000.0);
                let got = to_float(&to_fixed(a).nlerp(&to_fixed(b), amount));
                assert!(close(got, expected, 1e-4), "{:?} {:?} {}", a, b, amount);
            }
        }
    }
}

#[test]
fn power_repeats_a_rotation() {
    let q = Rotation::new(999_999, 0, 0, 1_571);
    assert_eq!(q.power(0).components(), (ONE, 0, 0, 0));
    assert_eq!(q.power(1).components(), q.normalized().components());
    assert_eq!(q.power(2).components(), q.compose(&q).normalized().components());
    assert_eq!(Rotation::identity().power(u64::MAX).components(), (ONE, 0, 0, 0));
    assert_eq!(Rotation::zero().power(5).components(), (0, 0, 0, 0));
    let tilt = to_fixed(Quaternion::from_axis_angle(Vector3::new(0.6, 0.0, 0.8), cgmath::Deg(3.0)));
    let expected = Quaternion::from_axis_angle(Vector3::new(0.6, 0.0, 0.8), cgmath::Deg(3.0 * 37.0));
    assert!(close(to_float(&tilt.power(37)), expected, 1e-3));
}

#[test]
fn rotation_by_degrees_follows_the_angle() {
    assert_eq!(Rotation::from_angle_z(0).components(), (ONE, 0, 0, 0));
    assert_eq!(Rotation::from_angle_z(1).components(), (999_962, 0, 0, 8_727));
    assert_eq!(Rotation::from_angle_z(-1).components(), (999_962, 0, 0, -8_727));
    for degrees in [-720_i64, -359, -180, -90, -45, -1, 0, 1, 2, 30, 45, 89, 90, 135, 180, 270, 360, 1000] {
        let expected = Quaternion::from_angle_z(cgmath::Deg(degrees as f64));
        let got = to_float(&Rotation::from_angle_z(degrees));
        let same = close(got, expected, 2e-3) || close(got, -expected, 2e-3);
        assert!(same, "{} degrees: {:?}", degrees, got);
    }
    let (x, y) = Rotation::from_angle_z(90).forward();
    assert!((x + ONE).abs() <= 2_000 && y.abs() <= 2_000);
}

#[test]
fn rotation_about_an_axis_scales_the_axis() {
    assert_eq!(Rotation::from_axis_angle((0, 0, ONE), 1).components(), (999_962, 0, 0, 8_727));
    assert_eq!(Rotation::from_axis_angle((ONE, -ONE / 2, 0), 1).components(), (999_962, 8_727, -4_363, 0));
    assert_eq!(Rotation::from_axis_angle((ONE, ONE, ONE), 0).components(), (ONE, 0, 0, 0));
    assert_eq!(
        Rotation::from_axis_angle((i64::MAX, i64::MIN, 0), 1).components(),
        (999_962, COMPONENT_LIMIT, -COMPONENT_LIMIT, 0)
    );
    for degrees in [-100_i64, -7, 3, 50, 99, 200] {
        let axis = Vector3::new(0.6, 0.0, 0.8);
        let expected = Quaternion::from_axis_angle(axis, cgmath::Deg(degrees as f64));
        let got = to_float(&Rotation::from_axis_angle((600_000, 0, 800_000), degrees));
        assert!(close(got, expected, 2e-3), "{} degrees: {:?}", degrees, got);
    }
}
