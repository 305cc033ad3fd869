use nbody::fixed::SCALE;
use nbody::gravity::{Body, System};
use nbody::vec3::Vec3;

fn body_at(mass: i64, pos: (i64, i64, i64), vel: (i64, i64, i64)) -> Body {
    let mut b = Body::new();
    b.mass = mass;
    b.position = Vec3::new(pos.0, pos.1, pos.2);
    b.velocity = Vec3::new(vel.0, vel.1, vel.2);
    b
}

#[test]
fn single_body_no_self_force() {
    let mut s = System::new();
    s.push_body(body_at(1_000_000_000_000_000, (5_000_000, -3_000_000, 0), (7_000, -2_000, 9)));
    s.accelerate(50_000);
    let b = s.bodies()[0];
    assert_eq!(b.velocity, Vec3::new(7_000, -2_000, 9));
}

#[test]
fn pair_equal_mass_opposite_acceleration() {
    let m: i64 = 1_000_000_000_000_000;
    let mut s = System::new();
    s.push_body(body_at(m, (-100_000_000, 0, 0), (0, 0, 0)));
    s.push_body(body_at(m, (100_000_000, 0, 0), (0, 0, 0)));
    s.accelerate(50_000);
    let b0 = s.bodies()[0];
    let b1 = s.bodies()[1];
    assert_eq!(b0.velocity.x, -b1.velocity.x);
    assert_eq!(b0.velocity.y, -b1.velocity.y);
    assert_eq!(b0.velocity.z, -b1.velocity.z);
    assert!(b0.velocity.x > 0);
}

#[test]
fn pair_equal_mass_center_is_scaled_midpoint() {
    let m: i64 = 1_000_000_000_000_000;
    let mut s = System::new();
    s.push_body(body_at(m, (100_000_000, 0, 0), (0, 0, 0)));
    s.push_body(body_at(m, (300_000_000, 40_000, 0), (0, 0, 0)));
    let c = s.mass_center();
    // Midpoint (200_000_000, 20_000, 0) scaled by 1/1000.
    assert_eq!(c, Vec3::new(200_000, 20, 0));
}

#[test]
fn mass_center_empty_is_zero() {
    let s = System::new();
    assert_eq!(s.mass_center(), Vec3::new(0, 0, 0));
}

#[test]
fn mass_center_zero_total_mass_is_zero() {
    let mut s = System::new();
    s.push_body(body_at(1_000_000, (5_000_000, 0, 0), (0, 0, 0)));
    s.push_body(body_at(-1_000_000, (9_000_000, 0, 0), (0, 0, 0)));
    assert_eq!(s.mass_center(), Vec3::new(0, 0, 0));
}

#[test]
fn zero_dt_changes_nothing() {
    let mut s = System::new();
    s.push_body(body_at(1_000_000_000_000_000, (0, 0, 0), (123, -456, 789)));
    s.push_body(body_at(2_000_000_000_000_000, (50_000_000, 0, 0), (-1, 2, -3)));
    let before = (s.bodies()[0], s.bodies()[1]);
    s.accelerate(0);
    s.move_bodies(0);
    assert_eq!(s.bodies()[0], before.0);
    assert_eq!(s.bodies()[1], before.1);
}

#[test]
fn near_coincident_positions_contribute_nothing() {
    let mut s = System::new();
    s.push_body(body_at(1_000_000_000_000_000, (42, 7, -9), (0, 0, 0)));
    s.push_body(body_at(1_000_000_000_000_000, (42, 7, -9), (0, 0, 0)));
    s.accelerate(1_000_000);
    assert_eq!(s.bodies()[0].velocity, Vec3::new(0, 0, 0));
    assert_eq!(s.bodies()[1].velocity, Vec3::new(0, 0, 0));
}

#[test]
fn default_body_values() {
    let b = Body::new();
    assert_eq!(b.mass, 1_000_000_000_000_000);
    assert_eq!(b.radius, 5 * SCALE);
    assert_eq!(b.position, Vec3::new(0, 0, 0));
    assert_eq!(b.velocity, Vec3::new(0, 0, 0));
    assert_eq!(b.color.r, SCALE);
    assert_eq!(b.color.g, SCALE);
    assert_eq!(b.color.b, SCALE);
}

#[test]
fn exact_acceleration_of_known_pair() {
    // A mass of 1e9 units at distance 100 units pulls with
    // G * M / r^2 = 66.743 / 10^4 = 6.6743e-3 units, which is 6674 raw
    // (truncated).
    let a = body_at(1_000_000, (100_000_000, 0, 0), (0, 0, 0));
    let sun = body_at(1_000_000_000_000_000, (0, 0, 0), (0, 0, 0));
    let acc = a.find_acceleration(&sun);
    assert_eq!(acc, Vec3::new(-6674, 0, 0));
}

#[test]
fn two_body_circular_orbit_returns_near_start() {
    // A heavy body of 1e9 units at the origin; a light one at distance
    // 100 with the circular-orbit speed sqrt(G * M / R) = 0.816964...
    // After one orbital period (15382 steps of 0.05) it comes back to
    // within a few units of its start.
    let mut s = System::new();
    s.push_body(body_at(1_000_000_000_000_000, (0, 0, 0), (0, 0, 0)));
    s.push_body(body_at(1_000_000, (100_000_000, 0, 0), (0, 0, 816_964)));
    let dt: i64 = 50_000;
    for _ in 0..15382 {
        s.accelerate(dt);
        s.move_bodies(dt);
    }
    let b = s.bodies()[1];
    let dx = (b.position.x - 100_000_000) as i128;
    let dy = b.position.y as i128;
    let dz = b.position.z as i128;
    let dist2 = dx * dx + dy * dy + dz * dz;
    // Within 5 simulation units of the start (5e6 raw).
    assert!(dist2 < 25_000_000_000_000);
    // And it actually moved through the orbit rather than sitting still.
    assert!(b.velocity.z != 0);
}

#[test]
fn accelerate_by_body_matches_find_acceleration() {
    let mut a = body_at(1_000_000, (100_000_000, 0, 0), (0, 0, 0));
    let sun = body_at(1_000_000_000_000_000, (0, 0, 0), (0, 0, 0));
    a.accelerate_by_body(&sun, 1_000_000);
    assert_eq!(a.velocity, Vec3::new(-6674, 0, 0));
    let mut c = body_at(1_000_000, (100_000_000, 0, 0), (0, 0, 0));
    let acc = c.find_acceleration(&sun);
    c.accelerate(acc, 1_000_000);
    assert_eq!(c.velocity, Vec3::new(-6674, 0, 0));
}

#[test]
fn move_sphere_drifts_and_clamps() {
    let mut b = body_at(1_000_000, (1_000_000, 2_000_000, 0), (500_000, -250_000, 1));
    b.move_sphere(2_000_000);
    assert_eq!(b.position, Vec3::new(2_000_000, 1_500_000, 2));
}
