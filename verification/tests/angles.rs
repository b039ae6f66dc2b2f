use smooth_cameras::angle::wrap_angle;
use smooth_cameras::fixed::{FULL_TURN, HALF_TURN, ONE, PITCH_MAX};
use smooth_cameras::look_angles::LookAngles;
use smooth_cameras::vec3::Vec3;

fn fx(v: f64) -> i64 {
    (v * 65536.0).round() as i64
}

fn to_f(v: i64) -> f64 {
    v as f64 / 65536.0
}

#[test]
fn wrap_angle_values() {
    assert_eq!(wrap_angle(0), 0);
    assert_eq!(wrap_angle(FULL_TURN), 0);
    assert_eq!(wrap_angle(-FULL_TURN), 0);
    assert_eq!(wrap_angle(HALF_TURN), -HALF_TURN);
    assert_eq!(wrap_angle(1000), 1000);
    assert_eq!(wrap_angle(-1000), -1000);
    assert_eq!(wrap_angle(HALF_TURN + 5), -HALF_TURN + 5);
}

#[test]
fn round_trip_direction_vectors() {
    let cases: [(f64, f64, f64); 6] = [
        (0.0, 0.0, -1.0),
        (1.0, 0.0, 0.0),
        (0.0, 0.0, 1.0),
        (0.5, 0.5, -0.7071),
        (0.0, 0.6, 0.8),
        (-0.3, -0.4, 0.866),
    ];
    for &(x, y, z) in cases.iter() {
        let n = (x * x + y * y + z * z).sqrt();
        let (ux, uy, uz) = (x / n, y / n, z / n);
        let v = Vec3 {
            x: fx(x),
            y: fx(y),
            z: fx(z),
        };
        let a = LookAngles::from_vector(v);
        let u = a.unit_vector();
        assert!((to_f(u.x) - ux).abs() < 0.02, "x {} vs {}", to_f(u.x), ux);
        assert!((to_f(u.y) - uy).abs() < 0.02, "y {} vs {}", to_f(u.y), uy);
        assert!((to_f(u.z) - uz).abs() < 0.02, "z {} vs {}", to_f(u.z), uz);
    }
}

#[test]
fn yaw_is_periodic_over_a_full_turn() {
    let mut a = LookAngles::new(12345, 1000);
    let y0 = a.get_yaw();
    a.add_yaw(100000);
    a.add_yaw(200000);
    a.add_yaw(FULL_TURN - 300000);
    assert_eq!(a.get_yaw(), y0);

    let mut b = LookAngles::new(-54321, -2000);
    let y1 = b.get_yaw();
    b.add_yaw(FULL_TURN);
    assert_eq!(b.get_yaw(), y1);
}

#[test]
fn pitch_saturates_and_never_reaches_the_pole() {
    let mut a = LookAngles::new(0, 0);
    let deltas: [i64; 7] = [50000, 50000, 50000, 1000000, -10, 7, 400000000000];
    for &d in deltas.iter() {
        a.add_pitch(d);
        assert!(a.get_pitch().abs() <= PITCH_MAX);
    }
    assert_eq!(a.get_pitch(), PITCH_MAX);
    a.add_pitch(-400000000000);
    assert_eq!(a.get_pitch(), -PITCH_MAX);
    a.add_pitch(10);
    assert_eq!(a.get_pitch(), -PITCH_MAX + 10);
}

#[test]
fn from_vector_conventions() {
    // Looking straight down the negative z axis: both angles zero.
    let a = LookAngles::from_vector(Vec3 { x: 0, y: 0, z: -ONE });
    assert_eq!(a.get_yaw(), 0);
    assert_eq!(a.get_pitch(), 0);
    // A level direction has zero pitch; an upward one a positive pitch.
    let b = LookAngles::from_vector(Vec3 { x: ONE, y: 0, z: 0 });
    assert_eq!(b.get_pitch(), 0);
    let c = LookAngles::from_vector(Vec3 { x: 0, y: ONE / 2, z: -ONE });
    assert!(c.get_pitch() > 0);
    let d = LookAngles::from_vector(Vec3 { x: 0, y: -ONE / 2, z: -ONE });
    assert!(d.get_pitch() < 0);
}

#[test]
fn pitch_accuracy_of_from_vector() {
    // A 30-degree climb: pitch should be close to pi/6.
    let v = Vec3 {
        x: 0,
        y: fx(0.5),
        z: -fx(0.8660254),
    };
    let a = LookAngles::from_vector(v);
    let pitch = to_f(a.get_pitch());
    assert!((pitch - 0.5235988).abs() < 0.01, "pitch {}", pitch);
}

#[test]
fn setters_and_default() {
    let mut a = LookAngles::default();
    assert_eq!(a.get_yaw(), 0);
    assert_eq!(a.get_pitch(), 0);
    a.set_yaw(FULL_TURN + 77);
    assert_eq!(a.get_yaw(), 77);
    a.set_pitch(1000000);
    assert_eq!(a.get_pitch(), PITCH_MAX);
    a.assert_not_looking_up();
}
