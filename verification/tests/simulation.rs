use nbody::camera::CameraInput;
use nbody::edit::{parse_fixed, BodyField};
use nbody::sim::{FocusPoint, Simulation};

fn idle_input() -> CameraInput {
    CameraInput {
        key_w: false,
        key_s: false,
        key_a: false,
        key_d: false,
        key_q: false,
        key_e: false,
        mouse_x: 0,
        mouse_y: 0,
        frame_delta: 16_000,
    }
}

#[test]
fn removal_of_focused_body_falls_back_to_free() {
    let mut s = Simulation::new(0, 0);
    s.add_body();
    s.add_body();
    s.set_focus(FocusPoint::Body(1));
    s.tick(&idle_input(), 0);
    assert_eq!(s.focused, FocusPoint::Body(1));
    s.remove_body(1);
    s.finish_frame();
    assert_eq!(s.system.len(), 1);
    // The next tick sees the removal and resets the focus instead of
    // dereferencing the stale index.
    s.tick(&idle_input(), 0);
    assert_eq!(s.focused, FocusPoint::Free);
}

#[test]
fn removal_of_unrelated_body_also_resets_focus() {
    let mut s = Simulation::new(0, 0);
    s.add_body();
    s.add_body();
    s.add_body();
    s.set_focus(FocusPoint::Body(0));
    s.remove_body(2);
    s.finish_frame();
    s.tick(&idle_input(), 0);
    assert_eq!(s.focused, FocusPoint::Free);
}

#[test]
fn deferred_removal_applies_at_frame_end_only() {
    let mut s = Simulation::new(0, 0);
    s.add_body();
    s.add_body();
    s.remove_body(0);
    assert_eq!(s.system.len(), 2);
    s.finish_frame();
    assert_eq!(s.system.len(), 1);
    s.finish_frame();
    assert_eq!(s.system.len(), 1);
}

#[test]
fn paused_simulation_does_not_integrate() {
    let mut s = Simulation::new(0, 0);
    s.add_body();
    s.edit_body(0, BodyField::VelX, "1");
    let before = s.system.bodies()[0];
    s.tick(&idle_input(), 500_000);
    assert_eq!(s.system.bodies()[0], before);
    s.set_running(true);
    s.tick(&idle_input(), 500_000);
    assert_ne!(s.system.bodies()[0].position, before.position);
}

#[test]
fn focus_mass_center_orbits_without_bodies() {
    let mut s = Simulation::new(0, 0);
    s.set_focus(FocusPoint::MassCenter);
    s.tick(&idle_input(), 0);
    assert_eq!(s.focused, FocusPoint::MassCenter);
}

#[test]
fn edit_invalid_text_leaves_field_unchanged() {
    let mut s = Simulation::new(0, 0);
    s.add_body();
    let before = s.system.bodies()[0];
    s.edit_body(0, BodyField::Mass, "abc");
    assert_eq!(s.system.bodies()[0], before);
    s.edit_body(0, BodyField::PosX, "1.2.3");
    assert_eq!(s.system.bodies()[0], before);
    s.edit_body(0, BodyField::VelY, "");
    assert_eq!(s.system.bodies()[0], before);
    s.edit_body(0, BodyField::VelZ, "-");
    assert_eq!(s.system.bodies()[0], before);
    s.edit_body(0, BodyField::Mass, "1e9");
    assert_eq!(s.system.bodies()[0], before);
}

#[test]
fn edit_valid_text_assigns_the_field() {
    let mut s = Simulation::new(0, 0);
    s.add_body();
    s.edit_body(0, BodyField::Mass, "2.5");
    assert_eq!(s.system.bodies()[0].mass, 2_500_000);
    s.edit_body(0, BodyField::PosX, "-3.25");
    assert_eq!(s.system.bodies()[0].position.x, -3_250_000);
    s.edit_body(0, BodyField::VelZ, "0.000001");
    assert_eq!(s.system.bodies()[0].velocity.z, 1);
    s.edit_body(0, BodyField::PosY, "+41");
    assert_eq!(s.system.bodies()[0].position.y, 41_000_000);
}

#[test]
fn edit_out_of_range_value_leaves_field_unchanged() {
    let mut s = Simulation::new(0, 0);
    s.add_body();
    let before = s.system.bodies()[0];
    // Parses, but exceeds the representable position range.
    s.edit_body(0, BodyField::PosX, "9999999");
    assert_eq!(s.system.bodies()[0], before);
}

#[test]
fn parse_accepts_plain_decimals() {
    assert_eq!(parse_fixed("0"), Some(0));
    assert_eq!(parse_fixed("-0"), Some(0));
    assert_eq!(parse_fixed("1"), Some(1_000_000));
    assert_eq!(parse_fixed("1."), Some(1_000_000));
    assert_eq!(parse_fixed(".5"), Some(500_000));
    assert_eq!(parse_fixed("-12.75"), Some(-12_750_000));
    assert_eq!(parse_fixed("9223372036854.775807"), Some(i64::MAX));
}

#[test]
fn parse_rejects_junk_and_overflow() {
    assert_eq!(parse_fixed(""), None);
    assert_eq!(parse_fixed("."), None);
    assert_eq!(parse_fixed("+"), None);
    assert_eq!(parse_fixed("abc"), None);
    assert_eq!(parse_fixed("12a"), None);
    assert_eq!(parse_fixed("1 2"), None);
    assert_eq!(parse_fixed("9223372036854.775808"), None);
    assert_eq!(parse_fixed("99999999999999"), None);
    assert_eq!(parse_fixed("1.0000001"), None);
}

#[test]
fn camera_pose_reports_camera_state() {
    let s = Simulation::new(0, 0);
    let (pos, front, right, up) = s.camera_pose();
    assert_eq!(pos, s.camera.position);
    assert_eq!(front, s.camera.front);
    assert_eq!(right, s.camera.right);
    assert_eq!(up, s.camera.up);
}

#[test]
fn add_body_appends_defaults() {
    let mut s = Simulation::new(0, 0);
    s.add_body();
    s.add_body();
    assert_eq!(s.system.len(), 2);
    assert_eq!(s.system.bodies()[1].mass, 1_000_000_000_000_000);
}
