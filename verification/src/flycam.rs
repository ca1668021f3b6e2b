//! A free-flying first-person camera: yaw/pitch orientation driven by pointer
//! deltas, and a friction-damped velocity driven by held movement keys.
//!
//! Angles are degrees in fixed-point; `yaw` accumulates the running sum of
//! pointer input exactly, bounded only by the `i64` lattice (`YAW_LIMIT`).
//! Velocity is a per-tick world-space displacement: the translation step adds
//! one full `velocity` per tick, while only the acceleration and friction
//! terms scale with `dt`.

use crate::fixp::{
    fmul, fx_mul, is_sqrt_floor, isqrt128, lemma_abs_le_of_sq_le, lemma_fmul_bound,
    lemma_mul_abs_bound, lemma_mul_le_cancel, lemma_sq_between, lemma_sq_bound, lemma_sq_pos,
    lemma_sqrt_floor_dominates, lemma_tdiv_bound, lemma_tdiv_mul_bound, lemma_tdiv_sign,
    sqrt_ceil, sqrt_floor, tdiv, Vec3Fx, FX_ONE,
};
use vstd::arithmetic::mul::{
    lemma_mul_by_zero_is_zero, lemma_mul_inequality, lemma_mul_is_commutative,
    lemma_mul_is_distributive_add_other_way, lemma_mul_nonnegative,
};
use vstd::prelude::*;

verus! {

/// Pitch never leaves `[-89.5, 89.5]` degrees.
pub const PITCH_LIMIT: i64 = 89_500_000;

/// The `i64` lattice range that accumulated yaw must stay within: about
/// 9 * 10^12 degrees, far past any reachable orientation.
pub const YAW_LIMIT: i64 = 9_000_000_000_000_000_000;

/// Largest accepted tunable (acceleration, friction, top speed, sensitivity).
pub const TUNE_MAX: i64 = 1_000_000_000_000;

/// Largest accepted accumulated pointer delta per tick.
pub const DELTA_MAX: i64 = 1_000_000_000_000;

/// Largest accepted tick duration, in fixed-point seconds.
pub const DT_MAX: i64 = 3_600_000_000;

/// Largest camera position coordinate the translation step accepts.
pub const POS_LIMIT: i64 = 1_000_000_000_000_000_000;

/// `1 / sqrt(2)` rounded toward zero onto the fixed-point lattice: the length
/// of each axis of a diagonal input after normalization.
pub const INV_SQRT2: i64 = 707_106;

/// The six logical movement keys, as held/not-held for one tick.
#[derive(Clone, Copy, Debug, PartialEq, Eq, Structural)]
pub struct MoveInput {
    pub forward: bool,
    pub back: bool,
    pub left: bool,
    pub right: bool,
    pub up: bool,
    pub down: bool,
}

/// The world-space images of the camera-local X and Z axes under the current
/// orientation: the frame that movement input is rotated by.
#[derive(Clone, Copy, Debug, PartialEq, Eq, Structural)]
pub struct RotBasis {
    pub x_axis: Vec3Fx,
    pub z_axis: Vec3Fx,
}

/// The flight-camera state: tunables fixed at creation, plus the yaw/pitch
/// orientation and per-tick velocity that the update steps accumulate.
#[derive(Clone, Copy, Debug, PartialEq, Eq, Structural)]
pub struct FlyCam {
    pub top_speed: i64,
    pub friction: i64,
    pub acceleration: i64,
    pub velocity: Vec3Fx,
    pub sensitivity: i64,
    pub pitch: i64,
    pub yaw: i64,
}

/// Every component of `v` is within `bound`.
pub open spec fn vec_in(v: Vec3Fx, bound: int) -> bool {
    &&& -bound <= v.x <= bound
    &&& -bound <= v.y <= bound
    &&& -bound <= v.z <= bound
}

/// A basis of rotated unit axes: every component within one.
pub open spec fn basis_wf(basis: RotBasis) -> bool {
    &&& vec_in(basis.x_axis, FX_ONE as int)
    &&& vec_in(basis.z_axis, FX_ONE as int)
}

impl FlyCam {
    /// Well-formedness: tunables in range, pitch clamped, yaw on the lattice,
    /// and the velocity magnitude (hence each component) within the top
    /// speed.
    pub open spec fn wf(self) -> bool {
        &&& 0 <= self.acceleration <= TUNE_MAX
        &&& 0 <= self.friction <= TUNE_MAX
        &&& 0 <= self.top_speed <= TUNE_MAX
        &&& 0 <= self.sensitivity <= TUNE_MAX
        &&& -PITCH_LIMIT <= self.pitch <= PITCH_LIMIT
        &&& -YAW_LIMIT <= self.yaw <= YAW_LIMIT
        &&& vec_in(self.velocity, self.top_speed as int)
        &&& vel_mag2(self.velocity) <= (self.top_speed as int) * (self.top_speed as int)
    }
}

/// Squared magnitude of a stored velocity.
pub open spec fn vel_mag2(v: Vec3Fx) -> int {
    mag2((v.x as int, v.y as int, v.z as int))
}

impl Default for FlyCam {
    /// The tunables the camera is created with at scene setup.
    fn default() -> (r: Self)
        ensures
            r.wf(),
            r.acceleration == 1_250_000,
            r.friction == FX_ONE,
            r.top_speed == 250_000,
            r.sensitivity == 200_000,
            r.pitch == 0,
            r.yaw == 0,
            r.velocity == (Vec3Fx { x: 0, y: 0, z: 0 }),
    {
        let r = FlyCam {
            acceleration: 1_250_000,
            friction: FX_ONE,
            top_speed: 250_000,
            sensitivity: 200_000,
            pitch: 0,
            yaw: 0,
            velocity: Vec3Fx { x: 0, y: 0, z: 0 },
        };
        proof {
            lemma_mul_by_zero_is_zero(0int);
            lemma_mul_nonnegative(r.top_speed as int, r.top_speed as int);
        }
        r
    }
}

/// Pitch clamped to its limits.
pub open spec fn clamp_pitch(p: int) -> int {
    if p < -PITCH_LIMIT as int {
        -PITCH_LIMIT as int
    } else if p > PITCH_LIMIT as int {
        PITCH_LIMIT as int
    } else {
        p
    }
}

/// The yaw one pointer delta produces: the exact running sum.
pub open spec fn yaw_after(cam: FlyCam, dx: int) -> int {
    cam.yaw - fmul(dx, cam.sensitivity as int)
}

/// The pitch one pointer delta produces.
pub open spec fn pitch_after(cam: FlyCam, dy: int) -> int {
    clamp_pitch(cam.pitch + fmul(dy, cam.sensitivity as int))
}

/// The clamp keeps pitch inside its limits, and an input that would cross a
/// limit lands exactly on that limit, on this and every later tick.
pub proof fn lemma_pitch_always_clamped(p: int)
    ensures
        -PITCH_LIMIT as int <= clamp_pitch(p) <= PITCH_LIMIT as int,
        p > PITCH_LIMIT as int ==> clamp_pitch(p) == PITCH_LIMIT as int,
        p < -PITCH_LIMIT as int ==> clamp_pitch(p) == -PITCH_LIMIT as int,
{
}

/// A signed axis from its two keys: `+1` for the positive key, `-1` for the
/// negative key, their sum when both are held.
pub open spec fn axis_value(positive_held: bool, negative_held: bool) -> int {
    (if positive_held {
        1int
    } else {
        0int
    }) - (if negative_held {
        1int
    } else {
        0int
    })
}

/// Camera-local X input, on the fixed-point lattice.
pub open spec fn local_x(keys: MoveInput) -> int {
    axis_value(keys.right, keys.left) * FX_ONE as int
}

/// Camera-local Z input, on the fixed-point lattice.
pub open spec fn local_z(keys: MoveInput) -> int {
    axis_value(keys.back, keys.forward) * FX_ONE as int
}

/// The local input vector normalized to unit length when it is diagonal, so
/// diagonal movement is no faster than movement along one axis.
pub open spec fn norm_local_x(keys: MoveInput) -> int {
    if local_x(keys) != 0 && local_z(keys) != 0 {
        axis_value(keys.right, keys.left) * INV_SQRT2 as int
    } else {
        local_x(keys)
    }
}

/// See `norm_local_x`.
pub open spec fn norm_local_z(keys: MoveInput) -> int {
    if local_x(keys) != 0 && local_z(keys) != 0 {
        axis_value(keys.back, keys.forward) * INV_SQRT2 as int
    } else {
        local_z(keys)
    }
}

/// The world-space movement direction: the normalized local input rotated by
/// the orientation basis, plus the vertical axis added unrotated.
pub open spec fn move_dir(keys: MoveInput, basis: RotBasis) -> (int, int, int) {
    let lx = norm_local_x(keys);
    let lz = norm_local_z(keys);
    (
        fmul(lx, basis.x_axis.x as int) + fmul(lz, basis.z_axis.x as int),
        fmul(lx, basis.x_axis.y as int) + fmul(lz, basis.z_axis.y as int) + axis_value(
            keys.up,
            keys.down,
        ) * FX_ONE as int,
        fmul(lx, basis.x_axis.z as int) + fmul(lz, basis.z_axis.z as int),
    )
}

/// Squared magnitude.
pub open spec fn mag2(v: (int, int, int)) -> int {
    v.0 * v.0 + v.1 * v.1 + v.2 * v.2
}

/// Velocity after the acceleration step: `velocity + direction * acceleration
/// * dt`.
pub open spec fn vel_accel(cam: FlyCam, keys: MoveInput, basis: RotBasis, dt: i64) -> (
    int,
    int,
    int,
) {
    let d = move_dir(keys, basis);
    let gain = fmul(cam.acceleration as int, dt as int);
    (
        cam.velocity.x + fmul(d.0, gain),
        cam.velocity.y + fmul(d.1, gain),
        cam.velocity.z + fmul(d.2, gain),
    )
}

/// The speed clamp: a velocity whose magnitude exceeds `top` is rescaled by
/// `top / |v|`, direction preserved, each coordinate rounded toward zero.
/// The magnitude is taken as the ceiling square root, so the rescaled
/// magnitude never lands above `top`.
pub open spec fn clamp_speed(v: (int, int, int), top: int) -> (int, int, int) {
    if mag2(v) > top * top {
        let n = sqrt_ceil(mag2(v));
        (tdiv(v.0 * top, n), tdiv(v.1 * top, n), tdiv(v.2 * top, n))
    } else {
        v
    }
}

/// Velocity after the speed clamp.
pub open spec fn vel_clamped(cam: FlyCam, keys: MoveInput, basis: RotBasis, dt: i64) -> (
    int,
    int,
    int,
) {
    clamp_speed(vel_accel(cam, keys, basis, dt), cam.top_speed as int)
}

/// The friction reaction force: opposite to the velocity, `friction * dt`
/// long, and zero for a camera at rest (no normalization of a zero vector).
pub open spec fn friction_force(v: (int, int, int), gain: int) -> (int, int, int) {
    if v.0 == 0 && v.1 == 0 && v.2 == 0 {
        (0int, 0int, 0int)
    } else {
        let n = sqrt_floor(mag2(v));
        (-tdiv(v.0 * gain, n), -tdiv(v.1 * gain, n), -tdiv(v.2 * gain, n))
    }
}

/// Friction overshoot on one coordinate: adding the force would carry the
/// coordinate past zero.
pub open spec fn sign_flips(v: int, f: int) -> bool {
    (v > 0 && v + f < 0) || (v < 0 && v + f > 0)
}

/// Friction applied with the overshoot guard: if any coordinate would flip
/// sign the whole velocity snaps to zero for the tick.
pub open spec fn apply_friction(v: (int, int, int), f: (int, int, int)) -> (int, int, int) {
    if sign_flips(v.0, f.0) || sign_flips(v.1, f.1) || sign_flips(v.2, f.2) {
        (0int, 0int, 0int)
    } else {
        (v.0 + f.0, v.1 + f.1, v.2 + f.2)
    }
}

/// The velocity one whole movement tick produces.
pub open spec fn vel_next(cam: FlyCam, keys: MoveInput, basis: RotBasis, dt: i64) -> (
    int,
    int,
    int,
) {
    let v = vel_clamped(cam, keys, basis, dt);
    apply_friction(v, friction_force(v, fmul(cam.friction as int, dt as int)))
}

/// A camera at rest with no key held stays exactly at rest: the friction step
/// neither drifts nor divides by a zero magnitude.
pub proof fn lemma_rest_stays_at_rest(cam: FlyCam, keys: MoveInput, basis: RotBasis, dt: i64)
    requires
        cam.wf(),
        cam.velocity == (Vec3Fx { x: 0, y: 0, z: 0 }),
        !keys.forward && !keys.back && !keys.left && !keys.right && !keys.up && !keys.down,
        0 <= dt <= DT_MAX,
    ensures
        vel_next(cam, keys, basis, dt) == (0int, 0int, 0int),
{
    let d = move_dir(keys, basis);
    assert(norm_local_x(keys) == 0);
    assert(norm_local_z(keys) == 0);
    lemma_mul_by_zero_is_zero(basis.x_axis.x as int);
    lemma_mul_by_zero_is_zero(basis.x_axis.y as int);
    lemma_mul_by_zero_is_zero(basis.x_axis.z as int);
    lemma_mul_by_zero_is_zero(basis.z_axis.x as int);
    lemma_mul_by_zero_is_zero(basis.z_axis.y as int);
    lemma_mul_by_zero_is_zero(basis.z_axis.z as int);
    assert(d.0 == 0 && d.1 == 0 && d.2 == 0);
    let gain = fmul(cam.acceleration as int, dt as int);
    assert(fmul(0, gain) == 0);
    let v1 = vel_accel(cam, keys, basis, dt);
    assert(v1 == (0int, 0int, 0int));
    assert(mag2(v1) == 0);
    assert((cam.top_speed as int) * (cam.top_speed as int) >= 0) by (nonlinear_arith);
    assert(vel_clamped(cam, keys, basis, dt) == v1);
    assert(vel_next(cam, keys, basis, dt) == (0int, 0int, 0int));
}

/// One rescaled coordinate, squared and weighted by the divisor's square,
/// never exceeds the original coordinate's weighted square.
proof fn lemma_rescale_component(v: int, top: int, nc: int)
    requires
        0 <= top,
        1 <= nc,
    ensures
        tdiv(v * top, nc) * tdiv(v * top, nc) * (nc * nc) <= (v * v) * (top * top),
{
    let a = v * top;
    let q = tdiv(a, nc);
    lemma_tdiv_mul_bound(a, nc);
    lemma_sq_between(a, q * nc);
    assert((q * nc) * (q * nc) == q * q * (nc * nc)) by (nonlinear_arith);
    assert((v * top) * (v * top) == (v * v) * (top * top)) by (nonlinear_arith);
}

/// Rescaling by the ceiling square root of the squared magnitude leaves the
/// squared magnitude at most `top * top`.
proof fn lemma_rescale_magnitude(vx: int, vy: int, vz: int, top: int, nc: int)
    requires
        0 <= top,
        1 <= nc,
        vx * vx + vy * vy + vz * vz <= nc * nc,
    ensures
        tdiv(vx * top, nc) * tdiv(vx * top, nc) + tdiv(vy * top, nc) * tdiv(vy * top, nc) + tdiv(
            vz * top,
            nc,
        ) * tdiv(vz * top, nc) <= top * top,
{
    let rx = tdiv(vx * top, nc);
    let ry = tdiv(vy * top, nc);
    let rz = tdiv(vz * top, nc);
    lemma_rescale_component(vx, top, nc);
    lemma_rescale_component(vy, top, nc);
    lemma_rescale_component(vz, top, nc);
    assert((rx * rx + ry * ry + rz * rz) * (nc * nc) == rx * rx * (nc * nc) + ry * ry * (nc * nc)
        + rz * rz * (nc * nc)) by {
        lemma_mul_is_distributive_add_other_way(nc * nc, rx * rx + ry * ry, rz * rz);
        lemma_mul_is_distributive_add_other_way(nc * nc, rx * rx, ry * ry);
    }
    assert((vx * vx) * (top * top) + (vy * vy) * (top * top) + (vz * vz) * (top * top) == (vx * vx
        + vy * vy + vz * vz) * (top * top)) by {
        lemma_mul_is_distributive_add_other_way(top * top, vx * vx + vy * vy, vz * vz);
        lemma_mul_is_distributive_add_other_way(top * top, vx * vx, vy * vy);
    }
    lemma_mul_nonnegative(top, top);
    lemma_mul_inequality(vx * vx + vy * vy + vz * vz, nc * nc, top * top);
    assert((nc * nc) * (top * top) == (top * top) * (nc * nc)) by (nonlinear_arith);
    assert(nc * nc >= 1) by (nonlinear_arith)
        requires
            nc >= 1,
    ;
    lemma_mul_le_cancel(rx * rx + ry * ry + rz * rz, top * top, nc * nc);
}

/// The friction term on one coordinate opposes that coordinate's sign.
proof fn lemma_friction_component(v: int, gain: int, n: int)
    requires
        0 <= gain,
        1 <= n,
    ensures
        v >= 0 ==> 0 <= tdiv(v * gain, n),
        v <= 0 ==> tdiv(v * gain, n) <= 0,
{
    if v == 0 {
        lemma_mul_by_zero_is_zero(gain);
    }
    if v >= 0 {
        lemma_mul_nonnegative(v, gain);
        lemma_tdiv_sign(v * gain, n);
    } else {
        assert(v * gain <= 0) by (nonlinear_arith)
            requires
                v <= 0,
                0 <= gain,
        ;
        lemma_tdiv_sign(v * gain, n);
    }
}

/// The speed-clamp stage: rescales the velocity onto the top-speed sphere
/// when its magnitude exceeds `top`, rounding each coordinate toward zero.
#[verifier::rlimit(100)]
fn clamp_speed_step(v1x: i64, v1y: i64, v1z: i64, top: i64) -> (r: (i64, i64, i64))
    requires
        -10_801_000_000_000_000 <= v1x <= 10_801_000_000_000_000,
        -10_801_000_000_000_000 <= v1y <= 10_801_000_000_000_000,
        -10_801_000_000_000_000 <= v1z <= 10_801_000_000_000_000,
        0 <= top <= TUNE_MAX,
    ensures
        r.0 as int == clamp_speed((v1x as int, v1y as int, v1z as int), top as int).0,
        r.1 as int == clamp_speed((v1x as int, v1y as int, v1z as int), top as int).1,
        r.2 as int == clamp_speed((v1x as int, v1y as int, v1z as int), top as int).2,
        -(top as int) <= r.0 as int <= top as int,
        -(top as int) <= r.1 as int <= top as int,
        -(top as int) <= r.2 as int <= top as int,
        mag2((r.0 as int, r.1 as int, r.2 as int)) <= (top as int) * (top as int),
{
    proof {
        lemma_sq_bound(v1x as int, 10_801_000_000_000_000);
        lemma_sq_bound(v1y as int, 10_801_000_000_000_000);
        lemma_sq_bound(v1z as int, 10_801_000_000_000_000);
        lemma_sq_bound(top as int, TUNE_MAX as int);
    }
    let m2: i128 = (v1x as i128) * (v1x as i128) + (v1y as i128) * (v1y as i128) + (v1z as i128)
        * (v1z as i128);
    let top2: i128 = (top as i128) * (top as i128);
    if m2 > top2 {
        let n: i128 = isqrt128(m2);
        proof {
            assert(n >= 1) by (nonlinear_arith)
                requires
                    is_sqrt_floor(m2 as int, n as int),
                    m2 >= 1,
            ;
            assert(0 <= n * n <= 400_000_000_000_000_000_000_000_000_000_000)
                by (nonlinear_arith)
                requires
                    0 <= n <= 20_000_000_000_000_000,
            ;
        }
        let nc: i128 = if n * n == m2 {
            n
        } else {
            n + 1
        };
        proof {
            assert(nc as int == sqrt_ceil(m2 as int));
            assert(m2 as int <= (nc as int) * (nc as int));
            lemma_sqrt_floor_dominates(m2 as int, n as int, v1x as int);
            lemma_sqrt_floor_dominates(m2 as int, n as int, v1y as int);
            lemma_sqrt_floor_dominates(m2 as int, n as int, v1z as int);
            lemma_mul_abs_bound(v1x as int, top as int, 10_801_000_000_000_000, TUNE_MAX as int);
            lemma_mul_abs_bound(v1y as int, top as int, 10_801_000_000_000_000, TUNE_MAX as int);
            lemma_mul_abs_bound(v1z as int, top as int, 10_801_000_000_000_000, TUNE_MAX as int);
            lemma_mul_abs_bound(v1x as int, top as int, nc as int, top as int);
            lemma_mul_abs_bound(v1y as int, top as int, nc as int, top as int);
            lemma_mul_abs_bound(v1z as int, top as int, nc as int, top as int);
            lemma_mul_is_commutative(nc as int, top as int);
            lemma_tdiv_bound((v1x as int) * (top as int), nc as int, top as int);
            lemma_tdiv_bound((v1y as int) * (top as int), nc as int, top as int);
            lemma_tdiv_bound((v1z as int) * (top as int), nc as int, top as int);
            lemma_rescale_magnitude(v1x as int, v1y as int, v1z as int, top as int, nc as int);
        }
        let cx: i64 = ((v1x as i128) * (top as i128) / nc) as i64;
        let cy: i64 = ((v1y as i128) * (top as i128) / nc) as i64;
        let cz: i64 = ((v1z as i128) * (top as i128) / nc) as i64;
        (cx, cy, cz)
    } else {
        proof {
            lemma_abs_le_of_sq_le(v1x as int, top as int);
            lemma_abs_le_of_sq_le(v1y as int, top as int);
            lemma_abs_le_of_sq_le(v1z as int, top as int);
        }
        (v1x, v1y, v1z)
    }
}

/// The friction stage: subtracts the reaction force and snaps the velocity
/// to zero when the force would carry any coordinate past zero.
#[verifier::rlimit(100)]
fn friction_step(vx: i64, vy: i64, vz: i64, fgain: i64, top: i64) -> (r: (i64, i64, i64))
    requires
        0 <= top <= TUNE_MAX,
        -(top as int) <= vx <= top as int,
        -(top as int) <= vy <= top as int,
        -(top as int) <= vz <= top as int,
        mag2((vx as int, vy as int, vz as int)) <= (top as int) * (top as int),
        0 <= fgain <= 3_600_000_000_000_000,
    ensures
        ({
            let v = (vx as int, vy as int, vz as int);
            let next = apply_friction(v, friction_force(v, fgain as int));
            &&& r.0 as int == next.0
            &&& r.1 as int == next.1
            &&& r.2 as int == next.2
        }),
        -(top as int) <= r.0 as int <= top as int,
        -(top as int) <= r.1 as int <= top as int,
        -(top as int) <= r.2 as int <= top as int,
        mag2((r.0 as int, r.1 as int, r.2 as int)) <= (top as int) * (top as int),
{
    if vx == 0 && vy == 0 && vz == 0 {
        proof {
            lemma_mul_nonnegative(top as int, top as int);
        }
        (0i64, 0i64, 0i64)
    } else {
        proof {
            lemma_sq_bound(vx as int, TUNE_MAX as int);
            lemma_sq_bound(vy as int, TUNE_MAX as int);
            lemma_sq_bound(vz as int, TUNE_MAX as int);
            if vx != 0 {
                lemma_sq_pos(vx as int);
            } else if vy != 0 {
                lemma_sq_pos(vy as int);
            } else {
                lemma_sq_pos(vz as int);
            }
        }
        let n2: i128 = (vx as i128) * (vx as i128) + (vy as i128) * (vy as i128) + (vz as i128)
            * (vz as i128);
        let nf: i128 = isqrt128(n2);
        proof {
            assert(nf >= 1) by (nonlinear_arith)
                requires
                    is_sqrt_floor(n2 as int, nf as int),
                    n2 >= 1,
            ;
            lemma_sqrt_floor_dominates(n2 as int, nf as int, vx as int);
            lemma_sqrt_floor_dominates(n2 as int, nf as int, vy as int);
            lemma_sqrt_floor_dominates(n2 as int, nf as int, vz as int);
            lemma_mul_abs_bound(vx as int, fgain as int, TUNE_MAX as int, 3_600_000_000_000_000);
            lemma_mul_abs_bound(vy as int, fgain as int, TUNE_MAX as int, 3_600_000_000_000_000);
            lemma_mul_abs_bound(vz as int, fgain as int, TUNE_MAX as int, 3_600_000_000_000_000);
            lemma_mul_abs_bound(vx as int, fgain as int, nf as int, fgain as int);
            lemma_mul_abs_bound(vy as int, fgain as int, nf as int, fgain as int);
            lemma_mul_abs_bound(vz as int, fgain as int, nf as int, fgain as int);
            lemma_mul_is_commutative(nf as int, fgain as int);
            lemma_tdiv_bound((vx as int) * (fgain as int), nf as int, fgain as int);
            lemma_tdiv_bound((vy as int) * (fgain as int), nf as int, fgain as int);
            lemma_tdiv_bound((vz as int) * (fgain as int), nf as int, fgain as int);
            lemma_friction_component(vx as int, fgain as int, nf as int);
            lemma_friction_component(vy as int, fgain as int, nf as int);
            lemma_friction_component(vz as int, fgain as int, nf as int);
        }
        let tx: i64 = ((vx as i128) * (fgain as i128) / nf) as i64;
        let ty: i64 = ((vy as i128) * (fgain as i128) / nf) as i64;
        let tz: i64 = ((vz as i128) * (fgain as i128) / nf) as i64;
        let nvx: i64 = vx - tx;
        let nvy: i64 = vy - ty;
        let nvz: i64 = vz - tz;
        let flip: bool = (vx > 0 && nvx < 0) || (vx < 0 && nvx > 0) || (vy > 0 && nvy < 0) || (vy
            < 0 && nvy > 0) || (vz > 0 && nvz < 0) || (vz < 0 && nvz > 0);
        if flip {
            proof {
                lemma_mul_nonnegative(top as int, top as int);
            }
            (0i64, 0i64, 0i64)
        } else {
            proof {
                assert((0 <= nvx as int <= vx as int) || (vx as int <= nvx as int <= 0));
                assert((0 <= nvy as int <= vy as int) || (vy as int <= nvy as int <= 0));
                assert((0 <= nvz as int <= vz as int) || (vz as int <= nvz as int <= 0));
                lemma_sq_between(vx as int, nvx as int);
                lemma_sq_between(vy as int, nvy as int);
                lemma_sq_between(vz as int, nvz as int);
            }
            (nvx, nvy, nvz)
        }
    }
}

/// One signed axis from its pair of held keys.
pub fn input_axis(positive_held: bool, negative_held: bool) -> (r: i64)
    ensures
        r as int == axis_value(positive_held, negative_held),
{
    let mut val: i64 = 0;
    if positive_held {
        val = val + 1;
    }
    if negative_held {
        val = val - 1;
    }
    val
}

impl FlyCam {
    /// The orientation update for one tick. `delta` is the summed pointer
    /// motion of the tick; `None` stands for a non-finite accumulated delta
    /// from a degenerate input source, on which the whole update is skipped
    /// and the state is left untouched. Yaw accumulates without bound; the
    /// lattice-range premise only keeps the running sum on the `i64` lattice.
    pub fn mouse_movement(&mut self, delta: Option<(i64, i64)>)
        requires
            old(self).wf(),
            match delta {
                Option::Some(d) => {
                    &&& -DELTA_MAX <= d.0 <= DELTA_MAX
                    &&& -DELTA_MAX <= d.1 <= DELTA_MAX
                    &&& -YAW_LIMIT <= yaw_after(*old(self), d.0 as int) <= YAW_LIMIT
                },
                Option::None => true,
            },
        ensures
            final(self).wf(),
            match delta {
                Option::Some(d) => {
                    &&& final(self).yaw as int == yaw_after(*old(self), d.0 as int)
                    &&& final(self).pitch as int == pitch_after(*old(self), d.1 as int)
                    &&& final(self).velocity == old(self).velocity
                    &&& final(self).acceleration == old(self).acceleration
                    &&& final(self).friction == old(self).friction
                    &&& final(self).top_speed == old(self).top_speed
                    &&& final(self).sensitivity == old(self).sensitivity
                },
                Option::None => *final(self) == *old(self),
            },
    {
        let (dx, dy) = match delta {
            Option::None => {
                return ;
            },
            Option::Some(d) => d,
        };
        proof {
            lemma_fmul_bound(
                dx as int,
                self.sensitivity as int,
                DELTA_MAX as int,
                TUNE_MAX as int,
                1_000_000_000_000_000_000,
            );
            lemma_fmul_bound(
                dy as int,
                self.sensitivity as int,
                DELTA_MAX as int,
                TUNE_MAX as int,
                1_000_000_000_000_000_000,
            );
        }
        let dyaw: i64 = fx_mul(dx, self.sensitivity);
        let t: i128 = (self.yaw as i128) - (dyaw as i128);
        self.yaw = t as i64;

        let dpitch: i64 = fx_mul(dy, self.sensitivity);
        let p: i64 = self.pitch + dpitch;
        self.pitch = if p < -PITCH_LIMIT {
            -PITCH_LIMIT
        } else if p > PITCH_LIMIT {
            PITCH_LIMIT
        } else {
            p
        };
    }

    /// The movement update for one tick: build the input direction in the
    /// rotated frame, integrate acceleration over `dt`, clamp the speed,
    /// apply friction with the overshoot guard, and advance `translation` by
    /// one whole velocity (velocity is a per-tick displacement; only the
    /// acceleration and friction terms scale with `dt`).
    #[verifier::rlimit(100)]
    pub fn camera_movement(
        &mut self,
        translation: &mut Vec3Fx,
        keys: MoveInput,
        dt: i64,
        basis: RotBasis,
    )
        requires
            old(self).wf(),
            0 <= dt <= DT_MAX,
            basis_wf(basis),
            vec_in(*old(translation), POS_LIMIT as int),
        ensures
            final(self).wf(),
            final(self).velocity.x as int == vel_next(*old(self), keys, basis, dt).0,
            final(self).velocity.y as int == vel_next(*old(self), keys, basis, dt).1,
            final(self).velocity.z as int == vel_next(*old(self), keys, basis, dt).2,
            final(translation).x as int == old(translation).x + vel_next(
                *old(self),
                keys,
                basis,
                dt,
            ).0,
            final(translation).y as int == old(translation).y + vel_next(
                *old(self),
                keys,
                basis,
                dt,
            ).1,
            final(translation).z as int == old(translation).z + vel_next(
                *old(self),
                keys,
                basis,
                dt,
            ).2,
            final(self).yaw == old(self).yaw,
            final(self).pitch == old(self).pitch,
            final(self).acceleration == old(self).acceleration,
            final(self).friction == old(self).friction,
            final(self).top_speed == old(self).top_speed,
            final(self).sensitivity == old(self).sensitivity,
    {
        let ghost cam0 = *old(self);

        // The local input vector, normalized when it is diagonal.
        let ax: i64 = input_axis(keys.right, keys.left);
        let az: i64 = input_axis(keys.back, keys.forward);
        let ay: i64 = input_axis(keys.up, keys.down);
        let mut lx: i64 = ax * FX_ONE;
        let mut lz: i64 = az * FX_ONE;
        if lx != 0 && lz != 0 {
            lx = ax * INV_SQRT2;
            lz = az * INV_SQRT2;
        }
        proof {
            assert(lx as int == norm_local_x(keys));
            assert(lz as int == norm_local_z(keys));
            lemma_fmul_bound(
                lx as int,
                basis.x_axis.x as int,
                FX_ONE as int,
                FX_ONE as int,
                FX_ONE as int,
            );
            lemma_fmul_bound(
                lz as int,
                basis.z_axis.x as int,
                FX_ONE as int,
                FX_ONE as int,
                FX_ONE as int,
            );
            lemma_fmul_bound(
                lx as int,
                basis.x_axis.y as int,
                FX_ONE as int,
                FX_ONE as int,
                FX_ONE as int,
            );
            lemma_fmul_bound(
                lz as int,
                basis.z_axis.y as int,
                FX_ONE as int,
                FX_ONE as int,
                FX_ONE as int,
            );
            lemma_fmul_bound(
                lx as int,
                basis.x_axis.z as int,
                FX_ONE as int,
                FX_ONE as int,
                FX_ONE as int,
            );
            lemma_fmul_bound(
                lz as int,
                basis.z_axis.z as int,
                FX_ONE as int,
                FX_ONE as int,
                FX_ONE as int,
            );
        }

        // The world-space movement direction.
        let dirx: i64 = fx_mul(lx, basis.x_axis.x) + fx_mul(lz, basis.z_axis.x);
        let diry: i64 = fx_mul(lx, basis.x_axis.y) + fx_mul(lz, basis.z_axis.y) + ay * FX_ONE;
        let dirz: i64 = fx_mul(lx, basis.x_axis.z) + fx_mul(lz, basis.z_axis.z);
        proof {
            assert(dirx as int == move_dir(keys, basis).0);
            assert(diry as int == move_dir(keys, basis).1);
            assert(dirz as int == move_dir(keys, basis).2);
            lemma_fmul_bound(
                self.acceleration as int,
                dt as int,
                TUNE_MAX as int,
                DT_MAX as int,
                3_600_000_000_000_000,
            );
        }

        // Integrate acceleration.
        let gain: i64 = fx_mul(self.acceleration, dt);
        proof {
            lemma_fmul_bound(
                dirx as int,
                gain as int,
                3_000_000,
                3_600_000_000_000_000,
                10_800_000_000_000_000,
            );
            lemma_fmul_bound(
                diry as int,
                gain as int,
                3_000_000,
                3_600_000_000_000_000,
                10_800_000_000_000_000,
            );
            lemma_fmul_bound(
                dirz as int,
                gain as int,
                3_000_000,
                3_600_000_000_000_000,
                10_800_000_000_000_000,
            );
        }
        let v1x: i64 = self.velocity.x + fx_mul(dirx, gain);
        let v1y: i64 = self.velocity.y + fx_mul(diry, gain);
        let v1z: i64 = self.velocity.z + fx_mul(dirz, gain);
        proof {
            assert(v1x as int == vel_accel(cam0, keys, basis, dt).0);
            assert(v1y as int == vel_accel(cam0, keys, basis, dt).1);
            assert(v1z as int == vel_accel(cam0, keys, basis, dt).2);
            lemma_sq_bound(v1x as int, 10_801_000_000_000_000);
            lemma_sq_bound(v1y as int, 10_801_000_000_000_000);
            lemma_sq_bound(v1z as int, 10_801_000_000_000_000);
            lemma_sq_bound(self.top_speed as int, TUNE_MAX as int);
        }

        // Clamp the speed to the top speed.
        let top: i64 = self.top_speed;
        let clamped: (i64, i64, i64) = clamp_speed_step(v1x, v1y, v1z, top);
        proof {
            assert(clamped.0 as int == vel_clamped(cam0, keys, basis, dt).0);
            assert(clamped.1 as int == vel_clamped(cam0, keys, basis, dt).1);
            assert(clamped.2 as int == vel_clamped(cam0, keys, basis, dt).2);
            lemma_fmul_bound(
                self.friction as int,
                dt as int,
                TUNE_MAX as int,
                DT_MAX as int,
                3_600_000_000_000_000,
            );
            lemma_mul_nonnegative(self.friction as int, dt as int);
            lemma_tdiv_sign((self.friction as int) * (dt as int), FX_ONE as int);
        }

        // Apply friction as a reaction force, with the overshoot guard.
        let fgain: i64 = fx_mul(self.friction, dt);
        let next: (i64, i64, i64) = friction_step(clamped.0, clamped.1, clamped.2, fgain, top);
        let vxf: i64 = next.0;
        let vyf: i64 = next.1;
        let vzf: i64 = next.2;
        proof {
            assert(vxf as int == vel_next(cam0, keys, basis, dt).0);
            assert(vyf as int == vel_next(cam0, keys, basis, dt).1);
            assert(vzf as int == vel_next(cam0, keys, basis, dt).2);
        }
        self.velocity = Vec3Fx { x: vxf, y: vyf, z: vzf };

        // Integrate the position by one whole velocity.
        translation.x = translation.x + vxf;
        translation.y = translation.y + vyf;
        translation.z = translation.z + vzf;
    }
}

} // verus!
