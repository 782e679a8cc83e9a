//! Orbit camera: state, pointer/scroll event accumulation, and the
//! per-frame integration step with its anti-gimbal-lock guard.
//!
//! All arithmetic is fixed-point (see `fx`): a scalar `v` stands for
//! `v / SCALE`.  Angles are radians at the same scale.

use vstd::prelude::*;
use crate::fx;
use crate::fx::{SCALE, CMAX, in_range, clamp_s, tdiv, tmod, add_s, sub_s, mul_s, div_s};
use crate::vec3;
use crate::vec3::{Vec3Fixed, bounded, fx3, add3_s, sub3_s, scale3_s, dot3_s, cross3_s, norm2_s,
    normalize3_s};

verus! {

/// The circle constant, scaled by `SCALE`.
pub const PI_FX: i64 = 205887;

/// Half of `PI_FX`.
pub const FRAC_PI_2_FX: i64 = 102943;

/// Twice `PI_FX`.
pub const TWO_PI_FX: i64 = 2 * PI_FX;

/// Degrees-equivalent rotation speed per second (`200.0`).
pub const ROTATION_SPEED: i64 = 200 * SCALE;

/// Zoom translation speed per second (`100.0`).
pub const ZOOM_SPEED: i64 = 100 * SCALE;

/// Cosine threshold (`0.95`) above which a rotation would flip the
/// camera through the poles and is rejected.
pub const GUARD_COS: i64 = 62259;

/// Sine by a degree-five polynomial on the range reduced modulo `TWO_PI_FX`.
/// Exact at zero, which the integration laws rely on.
pub open spec fn sin_s(t: int) -> int {
    let x = tmod(t, TWO_PI_FX as int);
    let x2 = mul_s(x, x);
    let x3 = mul_s(x2, x);
    let x5 = mul_s(x3, x2);
    clamp_s(x - tdiv(x3, 6) + tdiv(x5, 120))
}

/// Cosine by a degree-six polynomial on the range reduced modulo `TWO_PI_FX`.
/// Exact at zero.
pub open spec fn cos_s(t: int) -> int {
    let x = tmod(t, TWO_PI_FX as int);
    let x2 = mul_s(x, x);
    let x4 = mul_s(x2, x2);
    let x6 = mul_s(x4, x2);
    clamp_s(SCALE - tdiv(x2, 2) + tdiv(x4, 24) - tdiv(x6, 720))
}

pub fn sin_fx(t: i64) -> (r: i64)
    requires
        in_range(t as int),
    ensures
        r == sin_s(t as int),
        in_range(r as int),
{
    let x = fx::rem_trunc(t, TWO_PI_FX);
    let x2 = fx::mul(x, x);
    let x3 = fx::mul(x2, x);
    let x5 = fx::mul(x3, x2);
    fx::clamp(x - fx::div_trunc(x3, 6) + fx::div_trunc(x5, 120))
}

pub fn cos_fx(t: i64) -> (r: i64)
    requires
        in_range(t as int),
    ensures
        r == cos_s(t as int),
        in_range(r as int),
{
    let x = fx::rem_trunc(t, TWO_PI_FX);
    let x2 = fx::mul(x, x);
    let x4 = fx::mul(x2, x2);
    let x6 = fx::mul(x4, x2);
    fx::clamp(SCALE - fx::div_trunc(x2, 2) + fx::div_trunc(x4, 24) - fx::div_trunc(x6, 720))
}

/// The world-up direction.
pub open spec fn unit_y_s() -> Vec3Fixed {
    Vec3Fixed { x: 0, y: SCALE, z: 0 }
}

pub fn unit_y() -> (r: Vec3Fixed)
    ensures
        r == unit_y_s(),
        bounded(r),
{
    Vec3Fixed { x: 0, y: SCALE, z: 0 }
}

/// Rotation of `v` about the axis `k` by the angle `t`, by the
/// axis-angle formula `v c + (k x v) s + k (k . v)(1 - c)`; as in the
/// axis-angle matrix it mirrors, `k` is not normalized first.
pub open spec fn rotate_s(v: Vec3Fixed, k: Vec3Fixed, t: int) -> Vec3Fixed {
    let c = cos_s(t);
    let s = sin_s(t);
    let omc = sub_s(SCALE as int, c);
    let kv = dot3_s(k, v);
    let cr = cross3_s(k, v);
    add3_s(add3_s(scale3_s(v, c), scale3_s(cr, s)), scale3_s(k, mul_s(kv, omc)))
}

pub fn rotate(v: &Vec3Fixed, k: &Vec3Fixed, t: i64) -> (r: Vec3Fixed)
    requires
        bounded(*v),
        bounded(*k),
        in_range(t as int),
    ensures
        r == rotate_s(*v, *k, t as int),
        bounded(r),
{
    let c = cos_fx(t);
    let s = sin_fx(t);
    let omc = fx::sub(SCALE, c);
    let kv = vec3::dot3(k, v);
    let cr = vec3::cross3(k, v);
    let t1 = vec3::scale3(v, c);
    let t2 = vec3::scale3(&cr, s);
    let t3 = vec3::scale3(k, fx::mul(kv, omc));
    vec3::add3(&vec3::add3(&t1, &t2), &t3)
}

/// Rotating by a zero angle moves nothing.
pub proof fn lemma_rotate_zero(v: Vec3Fixed, k: Vec3Fixed)
    requires
        bounded(v),
        bounded(k),
    ensures
        rotate_s(v, k, 0) == v,
{
    assert(tmod(0, TWO_PI_FX as int) == 0);
    assert(cos_s(0) == SCALE);
    assert(sin_s(0) == 0);
    fx::lemma_mul_zero(cross3_s(k, v).x as int);
    fx::lemma_mul_zero(cross3_s(k, v).y as int);
    fx::lemma_mul_zero(cross3_s(k, v).z as int);
    fx::lemma_mul_zero(dot3_s(k, v) as int);
    fx::lemma_mul_zero(k.x as int);
    fx::lemma_mul_zero(k.y as int);
    fx::lemma_mul_zero(k.z as int);
    fx::lemma_mul_one(v.x as int);
    fx::lemma_mul_one(v.y as int);
    fx::lemma_mul_one(v.z as int);
    assert(rotate_s(v, k, 0) == v);
}

#[derive(Clone, Copy, Debug, PartialEq, Eq, Structural)]
pub struct Camera {
    pub eye: Vec3Fixed,
    pub target: Vec3Fixed,
    pub fov: i64,
}

/// A camera is well formed when its vectors are in range and the view
/// direction is normalizable.
pub open spec fn camera_wf(c: Camera) -> bool {
    &&& bounded(c.eye)
    &&& bounded(c.target)
    &&& in_range(c.fov as int)
    &&& c.eye != c.target
}

impl Camera {
    pub fn new(eye: Vec3Fixed, target: Vec3Fixed, fov: i64) -> (r: Camera)
        ensures
            r == (Camera { eye, target, fov }),
    {
        Camera { eye, target, fov }
    }
}

impl Default for Camera {
    /// Eye two units back along `z`, target at the origin, a wide field
    /// of view of 89 units.
    fn default() -> (r: Camera)
        ensures
            r.eye == fx3(0, 0, 2 * SCALE),
            r.target == fx3(0, 0, 0),
            r.fov == 89 * SCALE,
            camera_wf(r),
    {
        Camera {
            eye: Vec3Fixed { x: 0, y: 0, z: 2 * SCALE },
            target: Vec3Fixed { x: 0, y: 0, z: 0 },
            fov: 89 * SCALE,
        }
    }
}

/// An input event, already reduced to plain values: cursor positions and
/// scroll amounts are fixed-point scalars.
#[derive(Clone, Copy, Debug, PartialEq, Eq, Structural)]
pub enum CameraEvent {
    ButtonPressed,
    ButtonReleased,
    CursorMoved { x: i64, y: i64 },
    Scroll { amount: i64 },
}

#[derive(Clone, Copy, Debug)]
pub struct CameraController {
    pub camera: Camera,
    pub screen_size: (i64, i64),
    pub is_middle_button_hold: bool,
    pub last_cursor: (i64, i64),
    pub rotation: (i64, i64),
    pub zoom: i64,
}

pub open spec fn ctrl_wf(c: CameraController) -> bool {
    &&& camera_wf(c.camera)
    &&& 1 <= c.screen_size.0 <= CMAX
    &&& 1 <= c.screen_size.1 <= CMAX
    &&& in_range(c.last_cursor.0 as int)
    &&& in_range(c.last_cursor.1 as int)
    &&& in_range(c.rotation.0 as int)
    &&& in_range(c.rotation.1 as int)
    &&& in_range(c.zoom as int)
}

/// What one event does to the controller: button edges toggle the drag
/// flag, cursor motion stores a screen-normalized rotation pair and the
/// cursor position, a scroll stores the zoom amount.  The camera itself
/// is never touched here.
pub open spec fn handle_s(c: CameraController, e: CameraEvent) -> CameraController {
    match e {
        CameraEvent::ButtonPressed => CameraController { is_middle_button_hold: true, ..c },
        CameraEvent::ButtonReleased => CameraController { is_middle_button_hold: false, ..c },
        CameraEvent::CursorMoved { x, y } => {
            let cx = clamp_s(x as int);
            let cy = clamp_s(y as int);
            let dx = div_s(sub_s(c.last_cursor.0 as int, cx), c.screen_size.0 as int);
            let dy = div_s(sub_s(c.last_cursor.1 as int, cy), c.screen_size.1 as int);
            CameraController {
                rotation: (
                    mul_s(-FRAC_PI_2_FX as int, dy) as i64,
                    mul_s(PI_FX as int, dx) as i64,
                ),
                last_cursor: (cx as i64, cy as i64),
                ..c
            }
        },
        CameraEvent::Scroll { amount } => CameraController {
            zoom: clamp_s(amount as int) as i64,
            ..c
        },
    }
}

/// The eye position the drag rotation asks for, before the guard.
pub open spec fn rot_candidate_s(c: CameraController, dir: Vec3Fixed, dt: int) -> Vec3Fixed {
    let axis = cross3_s(unit_y_s(), dir);
    let ax = mul_s(mul_s(c.rotation.0 as int, ROTATION_SPEED as int), dt);
    let ay = mul_s(mul_s(c.rotation.1 as int, ROTATION_SPEED as int), dt);
    rotate_s(rotate_s(c.camera.eye, axis, ax), unit_y_s(), ay)
}

/// The gimbal guard: a candidate eye is accepted only when it is away
/// from the target and the cosine between its view direction and
/// world-up stays below `GUARD_COS` in magnitude.
pub open spec fn accept_s(cand: Vec3Fixed, target: Vec3Fixed) -> bool {
    let dc = sub3_s(cand, target);
    let ny = normalize3_s(dc).y as int;
    norm2_s(dc) > 0 && -GUARD_COS < ny < GUARD_COS
}

/// Where the zoom translation puts the eye; a step that would land the
/// eye exactly on the target is rejected to keep the view direction
/// normalizable.
pub open spec fn zoom_eye_s(c: CameraController, dir: Vec3Fixed, eye: Vec3Fixed, dt: int)
    -> Vec3Fixed {
    let amount = mul_s(mul_s(ZOOM_SPEED as int, dt), c.zoom as int);
    let cand = add3_s(eye, scale3_s(dir, amount));
    if cand != c.camera.target {
        cand
    } else {
        eye
    }
}

/// One integration step: apply the pending drag rotation under the
/// gimbal guard, then the pending zoom along the old view direction,
/// then clear both accumulators.
pub open spec fn update_s(c: CameraController, dt: int) -> CameraController {
    let dir = normalize3_s(sub3_s(c.camera.target, c.camera.eye));
    let eye1 = if c.is_middle_button_hold {
        let cand = rot_candidate_s(c, dir, dt);
        if accept_s(cand, c.camera.target) {
            cand
        } else {
            c.camera.eye
        }
    } else {
        c.camera.eye
    };
    let eye2 = if c.zoom != 0 {
        zoom_eye_s(c, dir, eye1, dt)
    } else {
        eye1
    };
    CameraController {
        camera: Camera { eye: eye2, ..c.camera },
        rotation: (0, 0),
        zoom: 0,
        ..c
    }
}

impl CameraController {
    pub fn new(camera: Camera, screen_size: (i64, i64)) -> (r: CameraController)
        requires
            camera_wf(camera),
            1 <= screen_size.0 <= CMAX,
            1 <= screen_size.1 <= CMAX,
        ensures
            r.camera == camera,
            r.screen_size == screen_size,
            !r.is_middle_button_hold,
            r.last_cursor == (0i64, 0i64),
            r.rotation == (0i64, 0i64),
            r.zoom == 0,
            ctrl_wf(r),
    {
        CameraController {
            camera,
            screen_size,
            is_middle_button_hold: false,
            last_cursor: (0, 0),
            rotation: (0, 0),
            zoom: 0,
        }
    }

    /// Updates the transient accumulators only; `camera` is mutated by
    /// `update` alone.
    pub fn handle_events(&mut self, event: &CameraEvent)
        requires
            ctrl_wf(*old(self)),
        ensures
            *final(self) == handle_s(*old(self), *event),
            final(self).camera == old(self).camera,
            ctrl_wf(*final(self)),
    {
        match event {
            CameraEvent::ButtonPressed => {
                self.is_middle_button_hold = true;
            },
            CameraEvent::ButtonReleased => {
                self.is_middle_button_hold = false;
            },
            CameraEvent::CursorMoved { x, y } => {
                let cx = fx::clamp(*x);
                let cy = fx::clamp(*y);
                let dx = fx::div(fx::sub(self.last_cursor.0, cx), self.screen_size.0);
                let dy = fx::div(fx::sub(self.last_cursor.1, cy), self.screen_size.1);
                self.rotation = (fx::mul(-FRAC_PI_2_FX, dy), fx::mul(PI_FX, dx));
                self.last_cursor = (cx, cy);
            },
            CameraEvent::Scroll { amount } => {
                self.zoom = fx::clamp(*amount);
            },
        }
    }

    /// One integration step over `dt` seconds (fixed-point).  The new
    /// state is exactly `update_s`; both accumulators come out cleared,
    /// and a drag that the gimbal guard rejects leaves the eye where it
    /// was.
    pub fn update(&mut self, dt: i64)
        requires
            ctrl_wf(*old(self)),
            0 <= dt <= CMAX,
        ensures
            *final(self) == update_s(*old(self), dt as int),
            final(self).rotation == (0i64, 0i64),
            final(self).zoom == 0,
            ctrl_wf(*final(self)),
            old(self).is_middle_button_hold && old(self).zoom == 0 && !accept_s(
                rot_candidate_s(
                    *old(self),
                    normalize3_s(sub3_s(old(self).camera.target, old(self).camera.eye)),
                    dt as int,
                ),
                old(self).camera.target,
            ) ==> final(self).camera == old(self).camera,
    {
        let dir = vec3::normalize3(&vec3::sub3(&self.camera.target, &self.camera.eye));

        if self.is_middle_button_hold {
            let axis = vec3::cross3(&unit_y(), &dir);
            let ax = fx::mul(fx::mul(self.rotation.0, ROTATION_SPEED), dt);
            let ay = fx::mul(fx::mul(self.rotation.1, ROTATION_SPEED), dt);
            let cand = rotate(&rotate(&self.camera.eye, &axis, ax), &unit_y(), ay);

            let dc = vec3::sub3(&cand, &self.camera.target);
            let n2 = vec3::norm2(&dc);
            if n2 > 0 {
                let ny = vec3::normalize3(&dc).y;
                if -GUARD_COS < ny && ny < GUARD_COS {
                    self.camera.eye = cand;
                }
            }
            proof {
                lemma_neq_norm2(self.camera.eye, self.camera.target);
            }
        }

        if self.zoom != 0 {
            let amount = fx::mul(fx::mul(ZOOM_SPEED, dt), self.zoom);
            let cand = vec3::add3(&self.camera.eye, &vec3::scale3(&dir, amount));
            if !(cand.x == self.camera.target.x && cand.y == self.camera.target.y && cand.z
                == self.camera.target.z) {
                self.camera.eye = cand;
            }
        }

        self.rotation = (0, 0);
        self.zoom = 0;
    }
}

/// Distinct in-range vectors have a positive squared distance, so the
/// guard's `norm2 > 0` test is exactly the `cand != target` test.
proof fn lemma_neq_norm2(a: Vec3Fixed, b: Vec3Fixed)
    requires
        bounded(a),
        bounded(b),
    ensures
        norm2_s(sub3_s(a, b)) > 0 <==> a != b,
        norm2_s(sub3_s(a, b)) >= 0,
{
    let d = sub3_s(a, b);
    fx::lemma_sq_bound(d.x as int, CMAX as int);
    fx::lemma_sq_bound(d.y as int, CMAX as int);
    fx::lemma_sq_bound(d.z as int, CMAX as int);
    if a == b {
        assert(d.x == 0 && d.y == 0 && d.z == 0);
        assert((d.x as int) * (d.x as int) == 0) by (nonlinear_arith)
            requires
                d.x == 0;
        assert((d.y as int) * (d.y as int) == 0) by (nonlinear_arith)
            requires
                d.y == 0;
        assert((d.z as int) * (d.z as int) == 0) by (nonlinear_arith)
            requires
                d.z == 0;
        assert(norm2_s(d) == 0);
    } else {
        assert(d.x != 0 || d.y != 0 || d.z != 0);
        if d.x != 0 {
            assert((d.x as int) * (d.x as int) > 0) by (nonlinear_arith)
                requires
                    d.x != 0;
        } else if d.y != 0 {
            assert((d.y as int) * (d.y as int) > 0) by (nonlinear_arith)
                requires
                    d.y != 0;
        } else {
            assert((d.z as int) * (d.z as int) > 0) by (nonlinear_arith)
                requires
                    d.z != 0;
        }
        assert(norm2_s(d) > 0);
    }
}

/// A rotated vector is always in range: the formula's last step clamps.
proof fn lemma_rotate_s_bounded(v: Vec3Fixed, k: Vec3Fixed, t: int)
    ensures
        bounded(rotate_s(v, k, t)),
{
    let c = cos_s(t);
    let s = sin_s(t);
    let omc = sub_s(SCALE as int, c);
    let kv = dot3_s(k, v);
    let cr = cross3_s(k, v);
    vec3::lemma_ops_bounded(
        add3_s(scale3_s(v, c), scale3_s(cr, s)),
        scale3_s(k, mul_s(kv, omc)),
        0,
    );
}

/// Integrating is idempotent: a step clears the accumulators, and a
/// second step without intervening events moves the camera no further.
pub proof fn lemma_update_idempotent(c: CameraController, dt: int, dt2: int)
    requires
        ctrl_wf(c),
    ensures
        update_s(update_s(c, dt), dt2).camera == update_s(c, dt).camera,
{
    let c1 = update_s(c, dt);
    lemma_update_s_wf(c, dt);
    assert(c1.rotation.0 == 0 && c1.rotation.1 == 0 && c1.zoom == 0);
    let dir1 = normalize3_s(sub3_s(c1.camera.target, c1.camera.eye));
    let axis1 = cross3_s(unit_y_s(), dir1);
    fx::lemma_mul_zero(ROTATION_SPEED as int);
    assert(mul_s(0, ROTATION_SPEED as int) == 0);
    fx::lemma_mul_zero(dt2);
    assert(mul_s(mul_s(0, ROTATION_SPEED as int), dt2) == 0);
    vec3::lemma_ops_bounded(unit_y_s(), dir1, 0);
    lemma_rotate_zero(c1.camera.eye, axis1);
    lemma_rotate_zero(c1.camera.eye, unit_y_s());
    assert(rot_candidate_s(c1, dir1, dt2) == c1.camera.eye);
    assert(update_s(c1, dt2).camera == c1.camera);
}

/// The integration step keeps the controller well formed; in
/// particular the eye never lands on the target.
#[verifier::rlimit(50)]
pub proof fn lemma_update_s_wf(c: CameraController, dt: int)
    requires
        ctrl_wf(c),
    ensures
        ctrl_wf(update_s(c, dt)),
        update_s(c, dt).camera.target == c.camera.target,
        update_s(c, dt).camera.fov == c.camera.fov,
{
    let dir = normalize3_s(sub3_s(c.camera.target, c.camera.eye));
    let axis = cross3_s(unit_y_s(), dir);
    let ax = mul_s(mul_s(c.rotation.0 as int, ROTATION_SPEED as int), dt);
    let ay = mul_s(mul_s(c.rotation.1 as int, ROTATION_SPEED as int), dt);
    let cand = rot_candidate_s(c, dir, dt);
    lemma_rotate_s_bounded(rotate_s(c.camera.eye, axis, ax), unit_y_s(), ay);
    assert(bounded(cand));
    lemma_neq_norm2(cand, c.camera.target);
    let eye1 = if c.is_middle_button_hold && accept_s(cand, c.camera.target) {
        cand
    } else {
        c.camera.eye
    };
    assert(bounded(eye1) && eye1 != c.camera.target);
    if c.zoom != 0 {
        let amount = mul_s(mul_s(ZOOM_SPEED as int, dt), c.zoom as int);
        let zcand = add3_s(eye1, scale3_s(dir, amount));
        vec3::lemma_ops_bounded(eye1, scale3_s(dir, amount), amount);
        assert(bounded(zcand));
        assert(update_s(c, dt).camera.eye == zoom_eye_s(c, dir, eye1, dt));
    } else {
        assert(update_s(c, dt).camera.eye == eye1);
    }
}

impl Default for CameraController {
    /// The default camera watching from two units back, over a
    /// 1280 x 720 screen.
    fn default() -> (r: CameraController)
        ensures
            r.camera.eye == fx3(0, 0, 2 * SCALE),
            r.camera.target == fx3(0, 0, 0),
            r.screen_size.0 == 1280 * SCALE,
            r.screen_size.1 == 720 * SCALE,
            !r.is_middle_button_hold,
            r.last_cursor == (0i64, 0i64),
            r.rotation == (0i64, 0i64),
            r.zoom == 0,
            ctrl_wf(r),
    {
        CameraController {
            camera: Camera::default(),
            screen_size: (1280 * SCALE, 720 * SCALE),
            is_middle_button_hold: false,
            last_cursor: (0, 0),
            rotation: (0, 0),
            zoom: 0,
        }
    }
}

} // verus!
