use procmesh::fixp::{Vec3Fx, FX_ONE};
use procmesh::flycam::{input_axis, FlyCam, MoveInput, RotBasis, PITCH_LIMIT};

fn no_keys() -> MoveInput {
    MoveInput { forward: false, back: false, left: false, right: false, up: false, down: false }
}

fn identity_basis() -> RotBasis {
    RotBasis {
        x_axis: Vec3Fx { x: FX_ONE, y: 0, z: 0 },
        z_axis: Vec3Fx { x: 0, y: 0, z: FX_ONE },
    }
}

#[test]
fn default_tunables() {
    let cam = FlyCam::default();
    assert_eq!(cam.acceleration, 1_250_000);
    assert_eq!(cam.friction, 1_000_000);
    assert_eq!(cam.top_speed, 250_000);
    assert_eq!(cam.sensitivity, 200_000);
    assert_eq!(cam.pitch, 0);
    assert_eq!(cam.yaw, 0);
    assert_eq!(cam.velocity, Vec3Fx { x: 0, y: 0, z: 0 });
}

#[test]
fn input_axis_values() {
    assert_eq!(input_axis(true, false), 1);
    assert_eq!(input_axis(false, true), -1);
    assert_eq!(input_axis(true, true), 0);
    assert_eq!(input_axis(false, false), 0);
}

#[test]
fn forward_tick_without_friction_reaches_accel_times_dt() {
    // acceleration 1.25, dt 0.1: one forward tick gives |velocity| = 0.125.
    let mut cam = FlyCam::default();
    cam.friction = 0;
    let mut pos = Vec3Fx { x: 0, y: 0, z: 0 };
    let keys = MoveInput { forward: true, ..no_keys() };
    cam.camera_movement(&mut pos, keys, 100_000, identity_basis());
    assert_eq!(cam.velocity, Vec3Fx { x: 0, y: 0, z: -125_000 });
    assert_eq!(pos, Vec3Fx { x: 0, y: 0, z: -125_000 });
}

#[test]
fn forward_tick_with_friction_shrinks_but_keeps_sign() {
    let mut cam = FlyCam::default();
    let mut pos = Vec3Fx { x: 0, y: 0, z: 0 };
    let keys = MoveInput { forward: true, ..no_keys() };
    cam.camera_movement(&mut pos, keys, 100_000, identity_basis());
    // 0.125 accelerated, 0.1 of friction: 0.025 left, never sign-flipped.
    assert_eq!(cam.velocity, Vec3Fx { x: 0, y: 0, z: -25_000 });
    assert!(cam.velocity.z.abs() < 125_000);
}

#[test]
fn diagonal_input_is_normalized() {
    let mut cam = FlyCam::default();
    cam.friction = 0;
    let mut pos = Vec3Fx { x: 0, y: 0, z: 0 };
    let keys = MoveInput { forward: true, right: true, ..no_keys() };
    cam.camera_movement(&mut pos, keys, 100_000, identity_basis());
    // Each axis carries 0.125 / sqrt(2), so the diagonal is no faster.
    assert_eq!(cam.velocity, Vec3Fx { x: 88_388, y: 0, z: -88_388 });
    let vx = cam.velocity.x as f64 / FX_ONE as f64;
    let vz = cam.velocity.z as f64 / FX_ONE as f64;
    let speed = (vx * vx + vz * vz).sqrt();
    assert!(speed <= 0.125);
    assert!(speed > 0.1249);
}

#[test]
fn vertical_input_ignores_orientation() {
    let mut cam = FlyCam::default();
    cam.friction = 0;
    let mut pos = Vec3Fx { x: 0, y: 0, z: 0 };
    // A quarter-turn yaw basis: local X maps to -Z, local Z maps to +X.
    let basis = RotBasis {
        x_axis: Vec3Fx { x: 0, y: 0, z: -FX_ONE },
        z_axis: Vec3Fx { x: FX_ONE, y: 0, z: 0 },
    };
    let keys = MoveInput { up: true, ..no_keys() };
    cam.camera_movement(&mut pos, keys, 100_000, basis);
    assert_eq!(cam.velocity, Vec3Fx { x: 0, y: 125_000, z: 0 });
}

#[test]
fn speed_is_clamped_to_top_speed() {
    let mut cam = FlyCam::default();
    cam.friction = 0;
    cam.acceleration = 250_000_000;
    let mut pos = Vec3Fx { x: 0, y: 0, z: 0 };
    let keys = MoveInput { forward: true, ..no_keys() };
    // One second at acceleration 250 wants 250 units of speed; the clamp
    // leaves exactly the top speed.
    cam.camera_movement(&mut pos, keys, FX_ONE, identity_basis());
    assert_eq!(cam.velocity, Vec3Fx { x: 0, y: 0, z: -250_000 });
}

#[test]
fn friction_overshoot_snaps_to_zero() {
    let mut cam = FlyCam::default();
    cam.velocity = Vec3Fx { x: 0, y: 0, z: -1_000 };
    let mut pos = Vec3Fx { x: 0, y: 0, z: 0 };
    // 0.1 of friction would reverse a 0.001 velocity: it snaps to zero
    // instead.
    cam.camera_movement(&mut pos, no_keys(), 100_000, identity_basis());
    assert_eq!(cam.velocity, Vec3Fx { x: 0, y: 0, z: 0 });
    assert_eq!(pos, Vec3Fx { x: 0, y: 0, z: 0 });
}

#[test]
fn rest_with_no_input_stays_at_rest() {
    let mut cam = FlyCam::default();
    let mut pos = Vec3Fx { x: 7_000_000, y: 0, z: -3_000_000 };
    for _ in 0..5 {
        cam.camera_movement(&mut pos, no_keys(), 100_000, identity_basis());
        assert_eq!(cam.velocity, Vec3Fx { x: 0, y: 0, z: 0 });
    }
    assert_eq!(pos, Vec3Fx { x: 7_000_000, y: 0, z: -3_000_000 });
}

#[test]
fn pitch_clamps_exactly_at_the_limits() {
    let mut cam = FlyCam::default();
    // 1000 pixels at sensitivity 0.2 ask for 200 degrees of pitch.
    cam.mouse_movement(Some((0, 1_000_000_000)));
    assert_eq!(cam.pitch, PITCH_LIMIT);
    cam.mouse_movement(Some((0, 1_000_000_000)));
    assert_eq!(cam.pitch, PITCH_LIMIT);
    cam.mouse_movement(Some((0, -1_000_000_000)));
    assert_eq!(cam.pitch, -PITCH_LIMIT);
    cam.mouse_movement(Some((0, -1_000_000_000)));
    assert_eq!(cam.pitch, -PITCH_LIMIT);
}

#[test]
fn small_pitch_accumulates_unclamped() {
    let mut cam = FlyCam::default();
    // Half a pixel at sensitivity 0.2: a tenth of a degree each tick.
    cam.mouse_movement(Some((500_000, 500_000)));
    assert_eq!(cam.yaw, -100_000);
    assert_eq!(cam.pitch, 100_000);
    cam.mouse_movement(Some((500_000, 500_000)));
    assert_eq!(cam.yaw, -200_000);
    assert_eq!(cam.pitch, 200_000);
}

#[test]
fn yaw_accumulates_past_full_turns() {
    let mut cam = FlyCam::default();
    // A sweep of a million pixels at sensitivity 0.2 is 200000 degrees of
    // yaw: the running sum is kept, not reduced modulo full turns.
    cam.mouse_movement(Some((-1_000_000_000_000, 0)));
    assert_eq!(cam.yaw, 200_000_000_000);
    cam.mouse_movement(Some((1_000_000_000_000, 0)));
    assert_eq!(cam.yaw, 0);
}

#[test]
fn clamped_speed_magnitude_never_exceeds_top_speed() {
    // A diagonal burst whose squared magnitude (8) is not a perfect square:
    // rescaling divides by the ceiling root, so the result stays inside the
    // top-speed sphere instead of landing just outside it.
    let mut cam = FlyCam::default();
    cam.top_speed = 1;
    cam.velocity = Vec3Fx { x: 0, y: 0, z: 0 };
    cam.acceleration = 30;
    cam.friction = 0;
    let mut pos = Vec3Fx { x: 0, y: 0, z: 0 };
    let keys = MoveInput { forward: true, right: true, ..no_keys() };
    cam.camera_movement(&mut pos, keys, 100_000, identity_basis());
    let v = cam.velocity;
    assert!(v.x * v.x + v.y * v.y + v.z * v.z <= cam.top_speed * cam.top_speed);
    assert_eq!(v, Vec3Fx { x: 0, y: 0, z: 0 });
}

#[test]
fn non_finite_delta_leaves_orientation_unchanged() {
    let mut cam = FlyCam::default();
    cam.mouse_movement(Some((500_000, 500_000)));
    let before = cam;
    // The tick whose accumulated pointer delta was not finite is skipped
    // whole.
    cam.mouse_movement(None);
    assert_eq!(cam, before);
    assert_eq!(cam.yaw, -100_000);
    assert_eq!(cam.pitch, 100_000);
}

#[test]
fn orientation_update_keeps_velocity_and_tunables() {
    let mut cam = FlyCam::default();
    cam.velocity = Vec3Fx { x: 10, y: 20, z: 30 };
    cam.mouse_movement(Some((123_456, -654_321)));
    assert_eq!(cam.velocity, Vec3Fx { x: 10, y: 20, z: 30 });
    assert_eq!(cam.acceleration, 1_250_000);
    assert_eq!(cam.top_speed, 250_000);
}
