use raymarcher::camera::{cos_fx, sin_fx, Camera, CameraController, CameraEvent, FRAC_PI_2_FX};
use raymarcher::fx::SCALE;
use raymarcher::vec3::Vec3Fixed;

fn default_controller() -> CameraController {
    CameraController::new(
        Camera::new(
            Vec3Fixed::new(5 * SCALE, 5 * SCALE, 5 * SCALE),
            Vec3Fixed::new(0, 0, 0),
            3 * SCALE / 2,
        ),
        (1280 * SCALE, 720 * SCALE),
    )
}

fn dist2(a: Vec3Fixed, b: Vec3Fixed) -> i128 {
    let dx = (a.x - b.x) as i128;
    let dy = (a.y - b.y) as i128;
    let dz = (a.z - b.z) as i128;
    dx * dx + dy * dy + dz * dz
}

#[test]
fn button_events_toggle_drag() {
    let mut c = default_controller();
    assert!(!c.is_middle_button_hold);
    c.handle_events(&CameraEvent::ButtonPressed);
    assert!(c.is_middle_button_hold);
    c.handle_events(&CameraEvent::ButtonReleased);
    assert!(!c.is_middle_button_hold);
}

#[test]
fn cursor_move_stores_rotation_pair() {
    let mut c = default_controller();
    c.handle_events(&CameraEvent::CursorMoved { x: 640 * SCALE, y: 360 * SCALE });
    // dx = (0 - 640) / 1280 = -0.5, dy = (0 - 360) / 720 = -0.5
    // rotation = (-pi/2 * dy, pi * dx)
    assert_eq!(c.rotation, (51471, -102943));
    assert_eq!(c.last_cursor, (640 * SCALE, 360 * SCALE));
    // the camera itself is untouched by events
    assert_eq!(c.camera.eye, Vec3Fixed::new(5 * SCALE, 5 * SCALE, 5 * SCALE));
}

#[test]
fn cursor_move_updates_last_cursor_without_drag() {
    let mut c = default_controller();
    c.handle_events(&CameraEvent::CursorMoved { x: 100 * SCALE, y: 50 * SCALE });
    assert_eq!(c.last_cursor, (100 * SCALE, 50 * SCALE));
    assert!(!c.is_middle_button_hold);
}

#[test]
fn scroll_stores_zoom() {
    let mut c = default_controller();
    c.handle_events(&CameraEvent::Scroll { amount: SCALE });
    assert_eq!(c.zoom, SCALE);
}

#[test]
fn update_clears_accumulators() {
    let mut c = default_controller();
    c.handle_events(&CameraEvent::ButtonPressed);
    c.handle_events(&CameraEvent::CursorMoved { x: 10 * SCALE, y: 10 * SCALE });
    c.handle_events(&CameraEvent::Scroll { amount: SCALE });
    c.update(655);
    assert_eq!(c.rotation, (0, 0));
    assert_eq!(c.zoom, 0);
}

#[test]
fn update_twice_is_idempotent() {
    let mut c = default_controller();
    c.handle_events(&CameraEvent::ButtonPressed);
    c.handle_events(&CameraEvent::CursorMoved { x: 64 * SCALE, y: 36 * SCALE });
    c.handle_events(&CameraEvent::Scroll { amount: SCALE });
    c.update(655);
    let eye_after_first = c.camera.eye;
    c.update(655);
    assert_eq!(c.camera.eye, eye_after_first);
    c.update(9999);
    assert_eq!(c.camera.eye, eye_after_first);
}

#[test]
fn gimbal_guard_rejects_rotation_to_pole() {
    // Eye straight behind the target on z; a drag pitching almost
    // exactly a quarter turn would carry the eye to world-up.
    let mut c = CameraController::new(
        Camera::new(Vec3Fixed::new(0, 0, 2 * SCALE), Vec3Fixed::new(0, 0, 0), 3 * SCALE / 2),
        (1280 * SCALE, 720 * SCALE),
    );
    c.handle_events(&CameraEvent::ButtonPressed);
    // full-screen vertical drag: dy = -1.0, so pitch accumulator = pi/2
    c.handle_events(&CameraEvent::CursorMoved { x: 0, y: 720 * SCALE });
    assert_eq!(c.rotation.0, 102943);
    // dt tuned so pitch * ROTATION_SPEED * dt is close to pi/2
    c.update(328);
    assert_eq!(c.camera.eye, Vec3Fixed::new(0, 0, 2 * SCALE));
}

#[test]
fn small_drag_moves_eye() {
    let mut c = default_controller();
    c.handle_events(&CameraEvent::ButtonPressed);
    c.handle_events(&CameraEvent::CursorMoved { x: 64 * SCALE, y: 0 });
    let before = c.camera.eye;
    c.update(164);
    assert_ne!(c.camera.eye, before);
}

#[test]
fn zoom_moves_eye_strictly_closer() {
    // Default eye (5, 5, 5), target the origin, pendingZoom 1.0; a
    // hundredth of a second keeps the step inside the eye-target gap.
    let mut c = default_controller();
    c.handle_events(&CameraEvent::Scroll { amount: SCALE });
    let before = c.camera.eye;
    let target = c.camera.target;
    c.update(655);
    let after = c.camera.eye;
    assert!(dist2(after, target) < dist2(before, target));
    // the eye stays on the eye-target line
    assert_eq!(after.x, after.y);
    assert_eq!(after.y, after.z);
}

#[test]
fn zoom_ignored_when_cleared() {
    let mut c = default_controller();
    let before = c.camera.eye;
    c.update(655);
    assert_eq!(c.camera.eye, before);
}

#[test]
fn drag_starting_mid_motion_does_not_jump() {
    // the cursor is tracked even without drag, so pressing the button
    // mid-motion sees only the delta since the last move
    let mut a = default_controller();
    a.handle_events(&CameraEvent::CursorMoved { x: 600 * SCALE, y: 300 * SCALE });
    a.handle_events(&CameraEvent::ButtonPressed);
    a.handle_events(&CameraEvent::CursorMoved { x: 640 * SCALE, y: 360 * SCALE });
    let mut b = default_controller();
    b.handle_events(&CameraEvent::CursorMoved { x: 600 * SCALE, y: 300 * SCALE });
    b.handle_events(&CameraEvent::CursorMoved { x: 640 * SCALE, y: 360 * SCALE });
    assert_eq!(a.rotation, b.rotation);
}

#[test]
fn trig_is_exact_at_zero_and_sane_at_quarter_turn() {
    assert_eq!(sin_fx(0), 0);
    assert_eq!(cos_fx(0), SCALE);
    assert!((sin_fx(FRAC_PI_2_FX) - SCALE).abs() < 1000);
    assert!(cos_fx(FRAC_PI_2_FX).abs() < 1000);
}

#[test]
fn camera_defaults() {
    let cam = Camera::default();
    assert_eq!(cam.eye, Vec3Fixed::new(0, 0, 2 * SCALE));
    assert_eq!(cam.target, Vec3Fixed::new(0, 0, 0));
    assert_eq!(cam.fov, 89 * SCALE);
    let ctrl = CameraController::default();
    assert_eq!(ctrl.camera.eye, Vec3Fixed::new(0, 0, 2 * SCALE));
    assert_eq!(ctrl.screen_size, (1280 * SCALE, 720 * SCALE));
    assert_eq!(ctrl.zoom, 0);
    assert_eq!(ctrl.rotation, (0, 0));
}
