use smooth_cameras::fixed::{isqrt, mul_fx, pow_fx, sqrt_fx, ONE};
use smooth_cameras::look_transform::LookTransform;
use smooth_cameras::smoother::Smoother;
use smooth_cameras::vec3::Vec3;

fn pose(ex: i64, ey: i64, ez: i64) -> LookTransform {
    LookTransform {
        eye: Vec3 { x: ex, y: ey, z: ez },
        target: Vec3 { x: 0, y: 0, z: 0 },
        up: Vec3 { x: 0, y: ONE, z: 0 },
    }
}

fn dist(a: &LookTransform, b: &LookTransform) -> i64 {
    (a.eye.x - b.eye.x).abs()
        + (a.eye.y - b.eye.y).abs()
        + (a.eye.z - b.eye.z).abs()
        + (a.target.x - b.target.x).abs()
        + (a.target.y - b.target.y).abs()
        + (a.target.z - b.target.z).abs()
        + (a.up.x - b.up.x).abs()
        + (a.up.y - b.up.y).abs()
        + (a.up.z - b.up.z).abs()
}

#[test]
fn fixed_point_square_roots() {
    assert_eq!(isqrt(0), 0);
    assert_eq!(isqrt(15), 3);
    assert_eq!(isqrt(16), 4);
    assert_eq!(isqrt(1 << 31), 46340);
    assert_eq!(sqrt_fx(0), 0);
    assert_eq!(sqrt_fx(ONE), ONE);
    // sqrt(1/4) = 1/2 at the working scale.
    assert_eq!(sqrt_fx(ONE / 4), ONE / 2);
}

#[test]
fn fixed_point_power() {
    assert_eq!(pow_fx(ONE, 12345), ONE);
    assert_eq!(pow_fx(0, 1), 0);
    assert_eq!(pow_fx(0, 3 * ONE), 0);
    assert_eq!(pow_fx(ONE / 2, 0), ONE);
    assert_eq!(pow_fx(ONE / 2, ONE), ONE / 2);
    assert_eq!(pow_fx(ONE / 2, 2 * ONE), ONE / 4);
    // A fractional exponent: sqrt(1/2) ~ 0.7071.
    let r = pow_fx(ONE / 2, ONE / 2);
    assert!((r - 46341).abs() <= 2, "got {}", r);
    assert_eq!(mul_fx(ONE / 2, ONE / 2), ONE / 4);
}

#[test]
fn first_update_returns_the_raw_pose_exactly() {
    let mut s = Smoother::new(58982);
    let p = pose(100000, -50000, 327680);
    let out = s.update(None, p, ONE / 60);
    assert_eq!(out, p);
    let out2 = s.update(None, p, ONE / 60);
    assert_eq!(out2, p);
}

#[test]
fn zero_weight_disables_smoothing() {
    let mut s = Smoother::new(0);
    let poses = [
        pose(10, 20, 30),
        pose(-100, 250, 7),
        pose(327680, 0, -327680),
        pose(1, 1, 1),
    ];
    for p in poses.iter() {
        let out = s.update(None, *p, ONE / 60);
        assert_eq!(out, *p);
    }
    // The same through a per-call override.
    let mut s2 = Smoother::new(58982);
    let _ = s2.update(None, poses[0], ONE);
    let out = s2.update(Some(0), poses[1], ONE);
    assert_eq!(out, poses[1]);
}

#[test]
fn constant_input_converges_monotonically() {
    let mut s = Smoother::new(58982);
    let start = pose(0, 0, 327680);
    let goal = pose(327680, 0, 0);
    let _ = s.update(None, start, ONE / 60);
    let mut prev = start;
    let mut d_prev = dist(&prev, &goal);
    for _ in 0..20000 {
        let out = s.update(None, goal, ONE / 60);
        let d = dist(&out, &goal);
        if prev != goal {
            assert!(d < d_prev, "distance did not shrink: {} -> {}", d_prev, d);
        } else {
            assert_eq!(d, 0);
        }
        prev = out;
        d_prev = d;
    }
    // Converged within a hundredth of a world unit after enough calls.
    assert!(d_prev < 655, "still {} away", d_prev);
}

#[test]
fn non_positive_elapsed_time_is_a_no_op() {
    let mut s = Smoother::new(58982);
    let a = pose(1000, 2000, 3000);
    let b = pose(-50000, 60000, -70000);
    let first = s.update(None, a, ONE);
    assert_eq!(first, a);
    let out = s.update(None, b, 0);
    assert_eq!(out, first);
    let out2 = s.update(None, b, -5);
    assert_eq!(out2, first);
}

#[test]
fn halving_the_time_step_doubles_the_call_count() {
    // Frame-rate invariance: converging to the same pose from the same
    // start, a step of dt/2 takes about twice as many calls as a step of dt.
    let goal = pose(0, 0, 0);
    let start = pose(ONE, 0, 0);
    let threshold: i64 = 655;

    let count = |dt: i64| -> i64 {
        let mut s = Smoother::new(ONE / 2);
        let _ = s.update(None, start, dt);
        let mut n: i64 = 0;
        loop {
            let out = s.update(None, goal, dt);
            n += 1;
            if dist(&out, &goal) < threshold {
                return n;
            }
            assert!(n < 10000);
        }
    };
    let n1 = count(ONE);
    let n2 = count(ONE / 2);
    assert!(
        (n2 - 2 * n1).abs() <= 1,
        "dt halved: {} calls vs {} at full dt",
        n2,
        n1
    );
}

#[test]
fn lagging_scenario_after_five_simulated_seconds() {
    // Start looking from (0,0,5) and feed the pose at (5,0,0) for 300 frames
    // of 1/60 s with weight 0.9: five simulated seconds leave a factor of
    // about 0.9^5 ~ 0.59 of the initial offset in each moved coordinate.
    let start = pose(0, 0, 5 * ONE);
    let goal = pose(5 * ONE, 0, 0);
    let mut s = Smoother::new(58982);
    let _ = s.update(None, start, ONE / 60);
    let mut out = start;
    for _ in 0..300 {
        out = s.update(None, goal, ONE / 60);
    }
    let remaining_x = (goal.eye.x - out.eye.x).abs();
    let remaining_z = (goal.eye.z - out.eye.z).abs();
    // 5 * 0.9^5 ~ 2.95 world units, i.e. about 193400 at the working scale.
    assert!(
        160000 < remaining_x && remaining_x < 220000,
        "x remaining {}",
        remaining_x
    );
    assert!(
        160000 < remaining_z && remaining_z < 220000,
        "z remaining {}",
        remaining_z
    );
    assert_eq!(out.eye.y, 0);
}

#[test]
fn scenario_converges_with_full_second_steps() {
    // The same scenario with one-second steps: after 300 calls the eye is
    // within a hundredth of a world unit of the raw pose.
    let start = pose(0, 0, 5 * ONE);
    let goal = pose(5 * ONE, 0, 0);
    let mut s = Smoother::new(58982);
    let _ = s.update(None, start, ONE);
    let mut out = start;
    for _ in 0..300 {
        out = s.update(None, goal, ONE);
    }
    assert!((goal.eye.x - out.eye.x).abs() < 655);
    assert!((goal.eye.y - out.eye.y).abs() < 655);
    assert!((goal.eye.z - out.eye.z).abs() < 655);
}

#[test]
fn radius_and_look_direction() {
    let t = pose(0, 0, 5 * ONE);
    // Eye at (0,0,5), target at the origin: radius 5 at the working scale.
    assert_eq!(t.radius(), 5 * ONE);
    let d = t.look_direction().unwrap();
    assert_eq!(d.x, 0);
    assert_eq!(d.y, 0);
    assert_eq!(d.z, -ONE);
    let degenerate = LookTransform {
        eye: Vec3 { x: 7, y: 8, z: 9 },
        target: Vec3 { x: 7, y: 8, z: 9 },
        up: Vec3 { x: 0, y: ONE, z: 0 },
    };
    assert!(degenerate.look_direction().is_none());
}
