use nbody::camera::{Camera, CameraInput};
use nbody::vec3::Vec3;

fn idle_input(mouse_x: i64, mouse_y: i64) -> CameraInput {
    CameraInput {
        key_w: false,
        key_s: false,
        key_a: false,
        key_d: false,
        key_q: false,
        key_e: false,
        mouse_x,
        mouse_y,
        frame_delta: 16_000,
    }
}

fn assert_orthonormal(c: &Camera) {
    let axes = [c.front, c.right, c.up];
    for v in axes.iter() {
        let n = (v.x as i128) * (v.x as i128) + (v.y as i128) * (v.y as i128) + (v.z as i128)
            * (v.z as i128);
        assert!(999_993_000_000 <= n && n <= 1_000_047_000_000);
    }
    let pairs = [(c.right, c.front), (c.up, c.front), (c.up, c.right)];
    for (a, b) in pairs.iter() {
        let d = (a.x as i128) * (b.x as i128) + (a.y as i128) * (b.y as i128) + (a.z as i128)
            * (b.z as i128);
        assert!(d.abs() <= 3_000_000);
    }
}

#[test]
fn basis_orthonormal_after_mixed_updates() {
    let mut c = Camera::new(0, 0);
    assert_orthonormal(&c);
    let mut mx: i64 = 0;
    let mut my: i64 = 0;
    for i in 0..50 {
        mx += 1_000_000 - 37_000 * (i % 7);
        my += 500_000 - 91_000 * (i % 11);
        let mut inp = idle_input(mx, my);
        inp.key_w = i % 2 == 0;
        inp.key_a = i % 3 == 0;
        inp.key_q = i % 5 == 0;
        c.update_free(&inp);
        assert_orthonormal(&c);
    }
    for i in 0..50 {
        let mut inp = idle_input(mx, my);
        inp.key_a = i % 2 == 0;
        inp.key_q = i % 3 == 0;
        inp.key_w = i % 4 == 0;
        c.update_with_point(&inp, Vec3::new(1_000_000, -2_000_000, 3_000_000));
        assert_orthonormal(&c);
    }
    for _ in 0..10 {
        mx += 2_000_000;
        c.update_free(&idle_input(mx, my));
        assert_orthonormal(&c);
    }
}

#[test]
fn pitch_clamped_under_repeated_mouse_input() {
    let mut c = Camera::new(0, 0);
    let mut my: i64 = 0;
    for _ in 0..200 {
        my -= 5_000_000;
        c.update_free(&idle_input(0, my));
        assert!(-1_500_000 <= c.pitch && c.pitch <= 1_500_000);
    }
    assert_eq!(c.pitch, 1_500_000);
    for _ in 0..300 {
        my += 9_000_000;
        c.update_free(&idle_input(0, my));
        assert!(-1_500_000 <= c.pitch && c.pitch <= 1_500_000);
    }
    assert_eq!(c.pitch, -1_500_000);
}

#[test]
fn ungrabbed_mouse_does_not_turn() {
    let mut c = Camera::new(0, 0);
    c.toggle_grab();
    assert!(!c.grabbed);
    let yaw = c.yaw;
    let pitch = c.pitch;
    c.update_free(&idle_input(50_000_000, -70_000_000));
    assert_eq!(c.yaw, yaw);
    assert_eq!(c.pitch, pitch);
    c.toggle_grab();
    assert!(c.grabbed);
}

#[test]
fn free_move_translates_along_front() {
    let mut c = Camera::new(0, 0);
    let front = c.front;
    let start = c.position;
    let mut inp = idle_input(0, 0);
    inp.key_w = true;
    c.update_free(&inp);
    // One step of MOVE_SPEED = 0.01 along the unit front vector.
    assert_eq!(c.position.x - start.x, front.x * 10_000 / 1_000_000);
    assert_eq!(c.position.y - start.y, front.y * 10_000 / 1_000_000);
    assert_eq!(c.position.z - start.z, front.z * 10_000 / 1_000_000);
}

#[test]
fn orbit_faces_the_focus_point() {
    let mut c = Camera::new(0, 0);
    let p = Vec3::new(10_000_000, 5_000_000, -4_000_000);
    c.update_with_point(&idle_input(0, 0), p);
    // The front axis points from the camera to the focus point: the
    // cross product of front and (point - position) is near zero, and
    // the dot product is positive.
    let dx = (p.x - c.position.x) as i128;
    let dy = (p.y - c.position.y) as i128;
    let dz = (p.z - c.position.z) as i128;
    let fx = c.front.x as i128;
    let fy = c.front.y as i128;
    let fz = c.front.z as i128;
    let dot = fx * dx + fy * dy + fz * dz;
    assert!(dot > 0);
    let cx = fy * dz - fz * dy;
    let cy = fz * dx - fx * dz;
    let cz = fx * dy - fy * dx;
    let dist2 = dx * dx + dy * dy + dz * dz;
    // Misalignment is bounded by truncation: |front x d|^2 well under
    // |front|^2 * |d|^2.
    assert!(cx * cx + cy * cy + cz * cz < dist2 / 1_000);
}

#[test]
fn orbit_zoom_shrinks_radius() {
    let mut c = Camera::new(0, 0);
    let r0 = c.radius;
    let mut inp = idle_input(0, 0);
    inp.key_w = true;
    c.update_with_point(&inp, Vec3::new(0, 0, 0));
    assert_eq!(c.radius, r0 - 20_000);
    inp.key_w = false;
    inp.key_s = true;
    c.update_with_point(&inp, Vec3::new(0, 0, 0));
    c.update_with_point(&inp, Vec3::new(0, 0, 0));
    assert_eq!(c.radius, r0 + 20_000);
}
