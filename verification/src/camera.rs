//! The free-fly / orbit camera.
//!
//! Angles are fixed-point radians. The direction for a yaw/pitch pair is
//! `(cos y * cos p, sin p, sin y * cos p)`, built from a rational
//! approximation of the sine, and renormalized; `right` and `up` are
//! renormalized cross products against the world up axis. The basis
//! invariant `wf_basis` states the orthonormality that every update
//! preserves: each axis has squared norm within a narrow band around
//! `SCALE * SCALE`, and the pairwise dot products are at most
//! `3 * SCALE` in magnitude (three truncated digits of one unit). Where a
//! recomputed axis would be too short to renormalize reliably (a
//! degenerate pose), the previous basis is kept: the fixed-point
//! counterpart of guarding a division by a near-zero norm.

use vstd::prelude::*;

verus! {

use vstd::arithmetic::div_mod::{
    lemma_fundamental_div_mod, lemma_fundamental_div_mod_converse, lemma_mod_bound,
    lemma_div_is_ordered, lemma_div_by_multiple,
};
use crate::fixed::{SCALE, absi, tdiv, clampi, tdiv128, clamp128, lemma_tdiv_abs,
    lemma_abs_mul_bound,
};
use crate::vec3::{Vec3, V3, sdot, snormsq, sadd, ssub, sscale, stdiv3, sclamp3,
    scross, in_box, snormalize, normsq128, normalize3, cross3, lemma_cross_orthogonal,
    lemma_normalize_norm, lemma_normalize_orthogonal, lemma_normalize_in_box,
};

/// Fixed-point pi and derived constants.
pub const PI_FIX: i64 = 3_141_593;

pub const TAU_FIX: i64 = 6_283_185;

pub const HALF_PI_FIX: i64 = 1_570_796;

/// Distance moved per directional key per tick (not dt-scaled).
pub const MOVE_SPEED: i64 = 10_000;

/// Look rate per unit of mouse delta and frame time.
pub const LOOK_SPEED: i64 = 100_000;

/// The pitch clamp of free-fly look, just under a quarter turn.
pub const PITCH_LIMIT: i64 = 1_500_000;

/// Range clamp of the angle and radius state.
pub const ANGLE_MAX: i64 = 1_000_000_000_000;

pub const RADIUS_MAX: i64 = 1_000_000_000_000;

/// Range clamp of the camera position.
pub const CAM_POS_MAX: i64 = 4_000_000_000_000_000;

/// Largest mouse coordinate accepted.
pub const MOUSE_MAX: i64 = 1_000_000_000_000;

/// Largest frame time accepted.
pub const FRAME_MAX: i64 = 1_000_000_000;

/// The squared-norm threshold below which renormalization is refused.
pub const MIN_NSQ: i64 = 2_500_000_000;

/// Resolved input signals for one camera update.
pub struct CameraInput {
    pub key_w: bool,
    pub key_s: bool,
    pub key_a: bool,
    pub key_d: bool,
    pub key_q: bool,
    pub key_e: bool,
    pub mouse_x: i64,
    pub mouse_y: i64,
    pub frame_delta: i64,
}

impl CameraInput {
    pub open spec fn wf(self) -> bool {
        &&& absi(self.mouse_x as int) <= MOUSE_MAX as int
        &&& absi(self.mouse_y as int) <= MOUSE_MAX as int
        &&& 0 <= self.frame_delta <= FRAME_MAX
    }
}

/// Rational sine approximation on `[0, PI_FIX]`:
/// `16 z (pi - z) * SCALE / (5 pi^2 - 4 z (pi - z))`, within `[0, SCALE]`.
pub open spec fn bhask(z: int) -> int
    recommends
        0 <= z <= PI_FIX,
{
    let t = z * (PI_FIX - z);
    tdiv(16 * t * SCALE, 5 * ((PI_FIX as int) * (PI_FIX as int)) - 4 * t)
}

/// Fixed-point sine of any angle: reduce modulo `TAU_FIX`, then apply the
/// approximation on each half turn.
pub open spec fn sin_spec(x: int) -> int {
    let a = x % (TAU_FIX as int);
    if a <= PI_FIX {
        bhask(a)
    } else {
        -bhask(a - PI_FIX)
    }
}

pub open spec fn cos_spec(x: int) -> int {
    sin_spec(x + HALF_PI_FIX)
}

/// Unnormalized view direction for a yaw/pitch pair.
pub open spec fn dir_raw(yaw: int, pitch: int) -> V3 {
    let cy = cos_spec(yaw);
    let sy = sin_spec(yaw);
    let cp = cos_spec(pitch);
    let sp = sin_spec(pitch);
    (tdiv(cy * cp, SCALE as int), sp, tdiv(sy * cp, SCALE as int))
}

/// Renormalized view direction; the world x axis where the raw direction
/// degenerates (which the approximation keeps from happening in practice).
pub open spec fn sdir(yaw: int, pitch: int) -> V3 {
    let rv = dir_raw(yaw, pitch);
    if snormsq(rv) >= MIN_NSQ {
        snormalize(rv)
    } else {
        (SCALE as int, 0int, 0int)
    }
}

/// Squared norm within the band that renormalization guarantees.
pub open spec fn unitish(v: V3) -> bool {
    999_993_000_000 <= snormsq(v) <= 1_000_047_000_000
}

/// The orthonormality invariant of the camera basis.
pub open spec fn wf_basis(f: V3, r: V3, u: V3) -> bool {
    &&& unitish(f) && unitish(r) && unitish(u)
    &&& in_box(f, SCALE as int) && in_box(r, SCALE as int) && in_box(u, SCALE as int)
    &&& absi(sdot(r, f)) <= 3_000_000
    &&& absi(sdot(u, f)) <= 3_000_000
    &&& absi(sdot(u, r)) <= 3_000_000
}

/// The basis derived from a unit front vector: `right` is the
/// renormalized cross of `front` with the world up axis `(0, SCALE, 0)`
/// (exactly `(-f.z, 0, f.x)` after cancelling the `SCALE` factor), `up`
/// the renormalized cross of `right` with `front`. Where either cross is
/// too short the previous basis stands.
pub open spec fn basis_from_front(f: V3, oldb: (V3, V3, V3)) -> (V3, V3, V3) {
    let rr = (-f.2, 0int, f.0);
    if snormsq(rr) >= MIN_NSQ {
        let r = snormalize(rr);
        let ur = scross(r, f);
        if snormsq(ur) >= MIN_NSQ {
            (f, r, snormalize(ur))
        } else {
            oldb
        }
    } else {
        oldb
    }
}

/// The basis for a yaw/pitch pair.
pub open spec fn basis_spec(yaw: int, pitch: int, oldb: (V3, V3, V3)) -> (V3, V3, V3) {
    basis_from_front(sdir(yaw, pitch), oldb)
}

/// One clamped translation along an axis: `p + d * (s * MOVE_SPEED) / SCALE`.
pub open spec fn moved(p: V3, d: V3, s: int) -> V3 {
    sclamp3(sadd(p, stdiv3(sscale(d, s * MOVE_SPEED), SCALE as int)), CAM_POS_MAX as int)
}

/// The six directional keys applied in order (W, S, A, D, Q, E), each
/// along the basis as it stands for the whole tick.
pub open spec fn free_pos(c: Camera, inp: CameraInput) -> V3 {
    let p1 = if inp.key_w {
        moved(c.position@, c.front@, 1)
    } else {
        c.position@
    };
    let p2 = if inp.key_s {
        moved(p1, c.front@, -1)
    } else {
        p1
    };
    let p3 = if inp.key_a {
        moved(p2, c.right@, -1)
    } else {
        p2
    };
    let p4 = if inp.key_d {
        moved(p3, c.right@, 1)
    } else {
        p3
    };
    let p5 = if inp.key_q {
        moved(p4, c.up@, 1)
    } else {
        p4
    };
    if inp.key_e {
        moved(p5, c.up@, -1)
    } else {
        p5
    }
}

/// Mouse-look yaw: `yaw + dx * frame_delta * LOOK_SPEED`, range-clamped.
pub open spec fn look_yaw(c: Camera, inp: CameraInput) -> int {
    let dx = inp.mouse_x - c.last_mouse_x;
    clampi(
        c.yaw + tdiv(
            tdiv(dx * inp.frame_delta, SCALE as int) * (LOOK_SPEED as int),
            SCALE as int,
        ),
        ANGLE_MAX as int,
    )
}

/// Mouse-look pitch: `pitch + dy * frame_delta * (-LOOK_SPEED)`, clamped
/// into `[-PITCH_LIMIT, PITCH_LIMIT]`.
pub open spec fn look_pitch(c: Camera, inp: CameraInput) -> int {
    let dy = inp.mouse_y - c.last_mouse_y;
    clampi(
        c.pitch + tdiv(
            tdiv(dy * inp.frame_delta, SCALE as int) * (-LOOK_SPEED as int),
            SCALE as int,
        ),
        PITCH_LIMIT as int,
    )
}

/// The free-fly update relation: translation by the key states, mouse
/// sampling, and (only while grabbed) look and basis recompute.
pub open spec fn free_updated(c: Camera, d: Camera, inp: CameraInput) -> bool {
    &&& d.position@ == free_pos(c, inp)
    &&& d.last_mouse_x == inp.mouse_x && d.last_mouse_y == inp.mouse_y
    &&& d.grabbed == c.grabbed && d.world_up == c.world_up && d.radius == c.radius
    &&& if c.grabbed {
        &&& d.yaw == look_yaw(c, inp)
        &&& d.pitch == look_pitch(c, inp)
        &&& (d.front@, d.right@, d.up@) == basis_spec(
            look_yaw(c, inp),
            look_pitch(c, inp),
            (c.front@, c.right@, c.up@),
        )
    } else {
        &&& d.yaw == c.yaw && d.pitch == c.pitch
        &&& d.front == c.front && d.right == c.right && d.up == c.up
    }
}

/// Key-driven orbit yaw (A and D, at `LOOK_SPEED * frame_delta`).
pub open spec fn orbit_yaw(c: Camera, inp: CameraInput) -> int {
    let step = tdiv((LOOK_SPEED as int) * inp.frame_delta, SCALE as int);
    let y1 = if inp.key_a {
        c.yaw - step
    } else {
        c.yaw as int
    };
    let y2 = if inp.key_d {
        y1 + step
    } else {
        y1
    };
    clampi(y2, ANGLE_MAX as int)
}

/// Key-driven orbit pitch (Q and E); range-clamped but not limited to the
/// free-look pitch window.
pub open spec fn orbit_pitch(c: Camera, inp: CameraInput) -> int {
    let step = tdiv((LOOK_SPEED as int) * inp.frame_delta, SCALE as int);
    let p1 = if inp.key_q {
        c.pitch + step
    } else {
        c.pitch as int
    };
    let p2 = if inp.key_e {
        p1 - step
    } else {
        p1
    };
    clampi(p2, ANGLE_MAX as int)
}

/// Key-driven zoom (W shrinks, S grows the orbit radius; not dt-scaled).
pub open spec fn orbit_radius(c: Camera, inp: CameraInput) -> int {
    let r1 = if inp.key_w {
        c.radius - 2 * MOVE_SPEED
    } else {
        c.radius as int
    };
    let r2 = if inp.key_s {
        r1 + 2 * MOVE_SPEED
    } else {
        r1
    };
    clampi(r2, RADIUS_MAX as int)
}

/// Orbit position: the focus point plus the spherical direction scaled by
/// the radius.
pub open spec fn orbit_pos(point: V3, yaw: int, pitch: int, radius: int) -> V3 {
    sclamp3(sadd(point, stdiv3(sscale(sdir(yaw, pitch), radius), SCALE as int)),
        CAM_POS_MAX as int)
}

/// Orbit basis: the front axis faces the focus point exactly; right and
/// up follow as in free flight. A degenerate offset keeps the old basis.
pub open spec fn orbit_basis(point: V3, pos: V3, oldb: (V3, V3, V3)) -> (V3, V3, V3) {
    let pp = ssub(point, pos);
    if snormsq(pp) >= MIN_NSQ {
        basis_from_front(snormalize(pp), oldb)
    } else {
        oldb
    }
}

/// The orbit update relation.
pub open spec fn orbit_updated(c: Camera, d: Camera, inp: CameraInput, point: V3) -> bool {
    &&& d.yaw == orbit_yaw(c, inp)
    &&& d.pitch == orbit_pitch(c, inp)
    &&& d.radius == orbit_radius(c, inp)
    &&& d.position@ == orbit_pos(point, d.yaw as int, d.pitch as int, d.radius as int)
    &&& (d.front@, d.right@, d.up@) == orbit_basis(
        point,
        d.position@,
        (c.front@, c.right@, c.up@),
    )
    &&& d.last_mouse_x == c.last_mouse_x && d.last_mouse_y == c.last_mouse_y
    &&& d.grabbed == c.grabbed && d.world_up == c.world_up
}

/// Viewer state: position, yaw/pitch orientation with its derived
/// orthonormal basis, the orbit radius, the last sampled mouse position
/// and the cursor-grab flag.
pub struct Camera {
    pub world_up: Vec3,
    pub yaw: i64,
    pub pitch: i64,
    pub radius: i64,
    pub front: Vec3,
    pub right: Vec3,
    pub up: Vec3,
    pub position: Vec3,
    pub last_mouse_x: i64,
    pub last_mouse_y: i64,
    pub grabbed: bool,
}

impl Camera {
    /// The state invariant: an orthonormal basis and every scalar within
    /// its range clamp.
    pub open spec fn wf(self) -> bool {
        &&& wf_basis(self.front@, self.right@, self.up@)
        &&& absi(self.yaw as int) <= ANGLE_MAX as int
        &&& absi(self.pitch as int) <= ANGLE_MAX as int
        &&& absi(self.radius as int) <= RADIUS_MAX as int
        &&& in_box(self.position@, CAM_POS_MAX as int)
        &&& absi(self.last_mouse_x as int) <= MOUSE_MAX as int
        &&& absi(self.last_mouse_y as int) <= MOUSE_MAX as int
        &&& self.world_up@ == (0int, SCALE as int, 0int)
    }

    /// A grabbed camera at the origin, yaw `1.18`, level pitch, radius
    /// `5`, with its basis derived from those angles. The initial mouse
    /// position seeds the first look delta.
    pub fn new(mouse_x: i64, mouse_y: i64) -> (c: Camera)
        requires
            absi(mouse_x as int) <= MOUSE_MAX as int,
            absi(mouse_y as int) <= MOUSE_MAX as int,
        ensures
            c.wf(),
            c.yaw == 1_180_000 && c.pitch == 0 && c.radius == 5 * SCALE,
            c.position@ == (0int, 0int, 0int),
            c.grabbed,
            c.last_mouse_x == mouse_x && c.last_mouse_y == mouse_y,
            (c.front@, c.right@, c.up@) == basis_spec(
                1_180_000,
                0,
                (
                    (SCALE as int, 0int, 0int),
                    (0int, 0int, SCALE as int),
                    (0int, SCALE as int, 0int),
                ),
            ),
    {
        let fb = Vec3 { x: SCALE, y: 0, z: 0 };
        let rb = Vec3 { x: 0, y: 0, z: SCALE };
        let ub = Vec3 { x: 0, y: SCALE, z: 0 };
        proof {
            lemma_axes_wf();
        }
        let dir = dir_vec(1_180_000, 0);
        let (front, right, up) = basis_step(dir, fb, rb, ub);
        Camera {
            world_up: Vec3 { x: 0, y: SCALE, z: 0 },
            yaw: 1_180_000,
            pitch: 0,
            radius: 5 * SCALE,
            front,
            right,
            up,
            position: Vec3::zero(),
            last_mouse_x: mouse_x,
            last_mouse_y: mouse_y,
            grabbed: true,
        }
    }

    /// Free-fly tick: translate along the basis by the held keys, sample
    /// the mouse, and, while grabbed, turn by the mouse delta (pitch
    /// clamped into `[-PITCH_LIMIT, PITCH_LIMIT]`) and recompute the
    /// basis.
    pub fn update_free(&mut self, inp: &CameraInput)
        requires
            old(self).wf(),
            inp.wf(),
        ensures
            free_updated(*old(self), *final(self), *inp),
            final(self).wf(),
            old(self).grabbed ==> -PITCH_LIMIT <= final(self).pitch <= PITCH_LIMIT,
    {
        let mut p = self.position;
        if inp.key_w {
            p = move_along(p, self.front, 1);
        }
        if inp.key_s {
            p = move_along(p, self.front, -1);
        }
        if inp.key_a {
            p = move_along(p, self.right, -1);
        }
        if inp.key_d {
            p = move_along(p, self.right, 1);
        }
        if inp.key_q {
            p = move_along(p, self.up, 1);
        }
        if inp.key_e {
            p = move_along(p, self.up, -1);
        }
        self.position = p;
        let dx = inp.mouse_x - self.last_mouse_x;
        let dy = inp.mouse_y - self.last_mouse_y;
        self.last_mouse_x = inp.mouse_x;
        self.last_mouse_y = inp.mouse_y;
        if self.grabbed {
            proof {
                lemma_abs_mul_bound(dx as int, inp.frame_delta as int, 2_000_000_000_000,
                    1_000_000_000);
                lemma_abs_mul_bound(dy as int, inp.frame_delta as int, 2_000_000_000_000,
                    1_000_000_000);
            }
            let qx = tdiv128((dx as i128) * (inp.frame_delta as i128), SCALE as i128);
            let qy = tdiv128((dy as i128) * (inp.frame_delta as i128), SCALE as i128);
            proof {
                lemma_tdiv_abs((dx as int) * (inp.frame_delta as int), SCALE as int);
                lemma_tdiv_abs((dy as int) * (inp.frame_delta as int), SCALE as int);
                lemma_div_is_ordered(absi((dx as int) * (inp.frame_delta as int)),
                    2_000_000_000_000_000_000_000, SCALE as int);
                lemma_div_is_ordered(absi((dy as int) * (inp.frame_delta as int)),
                    2_000_000_000_000_000_000_000, SCALE as int);
                assert(2_000_000_000_000_000_000_000int / (SCALE as int)
                    == 2_000_000_000_000_000) by (nonlinear_arith)
                    requires
                        SCALE == 1_000_000,
                ;
                lemma_abs_mul_bound(qx as int, LOOK_SPEED as int, 2_000_000_000_000_000,
                    LOOK_SPEED as int);
                lemma_abs_mul_bound(qy as int, -(LOOK_SPEED as int), 2_000_000_000_000_000,
                    LOOK_SPEED as int);
            }
            let dyaw = tdiv128(qx * (LOOK_SPEED as i128), SCALE as i128);
            let dpitch = tdiv128(qy * (-(LOOK_SPEED as i128)), SCALE as i128);
            self.yaw = clamp128((self.yaw as i128) + dyaw, ANGLE_MAX);
            self.pitch = clamp128((self.pitch as i128) + dpitch, PITCH_LIMIT);
            let dir = dir_vec(self.yaw, self.pitch);
            let (front, right, up) = basis_step(dir, self.front, self.right, self.up);
            self.front = front;
            self.right = right;
            self.up = up;
        }
    }

    /// Orbit tick around `point`: keys adjust yaw/pitch/radius, the
    /// camera is placed on the sphere around the point and faces it.
    pub fn update_with_point(&mut self, inp: &CameraInput, point: Vec3)
        requires
            old(self).wf(),
            inp.wf(),
            in_box(point@, 1_000_000_000_000),
        ensures
            orbit_updated(*old(self), *final(self), *inp, point@),
            final(self).wf(),
    {
        let step = tdiv128((LOOK_SPEED as i128) * (inp.frame_delta as i128), SCALE as i128);
        proof {
            lemma_abs_mul_bound(LOOK_SPEED as int, inp.frame_delta as int, LOOK_SPEED as int,
                FRAME_MAX as int);
        }
        let mut y: i128 = self.yaw as i128;
        if inp.key_a {
            y = y - step;
        }
        if inp.key_d {
            y = y + step;
        }
        self.yaw = clamp128(y, ANGLE_MAX);
        let mut pt: i128 = self.pitch as i128;
        if inp.key_q {
            pt = pt + step;
        }
        if inp.key_e {
            pt = pt - step;
        }
        self.pitch = clamp128(pt, ANGLE_MAX);
        let mut r: i128 = self.radius as i128;
        if inp.key_w {
            r = r - 2 * (MOVE_SPEED as i128);
        }
        if inp.key_s {
            r = r + 2 * (MOVE_SPEED as i128);
        }
        self.radius = clamp128(r, RADIUS_MAX);
        let dir = dir_vec(self.yaw, self.pitch);
        proof {
            lemma_abs_mul_bound(dir@.0, self.radius as int, SCALE as int, RADIUS_MAX as int);
            lemma_abs_mul_bound(dir@.1, self.radius as int, SCALE as int, RADIUS_MAX as int);
            lemma_abs_mul_bound(dir@.2, self.radius as int, SCALE as int, RADIUS_MAX as int);
        }
        let ox = tdiv128((dir.x as i128) * (self.radius as i128), SCALE as i128);
        let oy = tdiv128((dir.y as i128) * (self.radius as i128), SCALE as i128);
        let oz = tdiv128((dir.z as i128) * (self.radius as i128), SCALE as i128);
        self.position = Vec3 {
            x: clamp128((point.x as i128) + ox, CAM_POS_MAX),
            y: clamp128((point.y as i128) + oy, CAM_POS_MAX),
            z: clamp128((point.z as i128) + oz, CAM_POS_MAX),
        };
        let pp = Vec3 {
            x: point.x - self.position.x,
            y: point.y - self.position.y,
            z: point.z - self.position.z,
        };
        let nsq = normsq128(pp);
        if nsq >= MIN_NSQ as u128 {
            proof {
                lemma_normalize_norm(pp@);
                lemma_normalize_in_box(pp@);
            }
            let f = normalize3(pp);
            let (front, right, up) = basis_step(f, self.front, self.right, self.up);
            self.front = front;
            self.right = right;
            self.up = up;
        }
    }

    /// Flip the cursor-grab flag; while it is off, mouse look is
    /// suppressed (the caller shows the platform cursor).
    pub fn toggle_grab(&mut self)
        requires
            old(self).wf(),
        ensures
            *final(self) == (Camera { grabbed: !old(self).grabbed, ..*old(self) }),
            final(self).wf(),
    {
        self.grabbed = !self.grabbed;
    }
}

/// The exact world axes form a well-formed basis.
proof fn lemma_axes_wf()
    ensures
        wf_basis(
            (SCALE as int, 0int, 0int),
            (0int, 0int, SCALE as int),
            (0int, SCALE as int, 0int),
        ),
{
    let f = (SCALE as int, 0int, 0int);
    let r = (0int, 0int, SCALE as int);
    let u = (0int, SCALE as int, 0int);
    assert(snormsq(f) == 1_000_000_000_000 && snormsq(r) == 1_000_000_000_000 && snormsq(u)
        == 1_000_000_000_000 && sdot(r, f) == 0 && sdot(u, f) == 0 && sdot(u, r) == 0)
        by (nonlinear_arith)
        requires
            SCALE == 1_000_000,
            f == (SCALE as int, 0int, 0int),
            r == (0int, 0int, SCALE as int),
            u == (0int, SCALE as int, 0int),
    ;
}

/// One clamped translation along an axis of the basis.
fn move_along(p: Vec3, d: Vec3, sign: i64) -> (r: Vec3)
    requires
        sign == 1 || sign == -1,
        in_box(d@, SCALE as int),
        in_box(p@, CAM_POS_MAX as int),
    ensures
        r@ == moved(p@, d@, sign as int),
        in_box(r@, CAM_POS_MAX as int),
{
    proof {
        lemma_abs_mul_bound(d@.0, sign * MOVE_SPEED, SCALE as int, MOVE_SPEED as int);
        lemma_abs_mul_bound(d@.1, sign * MOVE_SPEED, SCALE as int, MOVE_SPEED as int);
        lemma_abs_mul_bound(d@.2, sign * MOVE_SPEED, SCALE as int, MOVE_SPEED as int);
    }
    let s = sign * MOVE_SPEED;
    let mx = tdiv128((d.x as i128) * (s as i128), SCALE as i128);
    let my = tdiv128((d.y as i128) * (s as i128), SCALE as i128);
    let mz = tdiv128((d.z as i128) * (s as i128), SCALE as i128);
    Vec3 {
        x: clamp128((p.x as i128) + mx, CAM_POS_MAX),
        y: clamp128((p.y as i128) + my, CAM_POS_MAX),
        z: clamp128((p.z as i128) + mz, CAM_POS_MAX),
    }
}

/// Euclidean remainder modulo a turn: the result lies in `[0, TAU_FIX)`.
fn wrap_tau(x: i64) -> (r: i64)
    ensures
        r as int == (x as int) % (TAU_FIX as int),
        0 <= r < TAU_FIX,
{
    if x >= 0 {
        let m = (x as u64) % (TAU_FIX as u64);
        proof {
            lemma_fundamental_div_mod(x as int, TAU_FIX as int);
            lemma_mod_bound(x as int, TAU_FIX as int);
        }
        m as i64
    } else {
        let k = (-(x as i128)) as u128;
        let m = k % (TAU_FIX as u128);
        proof {
            lemma_fundamental_div_mod(k as int, TAU_FIX as int);
            lemma_mod_bound(k as int, TAU_FIX as int);
            let q = k as int / TAU_FIX as int;
            if m == 0 {
                lemma_fundamental_div_mod_converse(x as int, TAU_FIX as int, -q, 0);
            } else {
                lemma_fundamental_div_mod_converse(
                    x as int,
                    TAU_FIX as int,
                    -q - 1,
                    TAU_FIX as int - m as int,
                );
            }
        }
        if m == 0 {
            0
        } else {
            TAU_FIX - (m as i64)
        }
    }
}

/// The rational sine approximation on a half turn.
fn bhask_fix(z: i64) -> (r: i64)
    requires
        0 <= z <= PI_FIX,
    ensures
        r as int == bhask(z as int),
        0 <= r <= SCALE,
{
    proof {
        let zi = z as int;
        assert(0 <= zi * (PI_FIX - zi) && 4 * (zi * (PI_FIX - zi)) <= (PI_FIX as int) * (
        PI_FIX as int)) by (nonlinear_arith)
            requires
                0 <= zi <= PI_FIX,
                PI_FIX == 3_141_593,
        ;
        assert((PI_FIX as int) * (PI_FIX as int) == 9_869_606_577_649) by (nonlinear_arith)
            requires
                PI_FIX == 3_141_593,
        ;
    }
    let t = (z as i128) * ((PI_FIX - z) as i128);
    proof {
        assert(0 <= t as int <= 2_500_000_000_000);
    }
    let num = 16 * t * 1_000_000i128;
    let den = 5 * 9_869_606_577_649i128 - 4 * t;
    proof {
        let ti = (z as int) * (PI_FIX - z as int);
        assert(num as int == 16 * ti * SCALE && den as int == 5 * ((PI_FIX as int) * (
        PI_FIX as int)) - 4 * ti) by (nonlinear_arith)
            requires
                num as int == 16 * (t as int) * 1_000_000,
                den as int == 5 * 9_869_606_577_649 - 4 * (t as int),
                t as int == ti,
                SCALE == 1_000_000,
                PI_FIX == 3_141_593,
        ;
    }
    let r = tdiv128(num, den);
    proof {
        let ti = (z as int) * (PI_FIX - z as int);
        let deni = 5 * ((PI_FIX as int) * (PI_FIX as int)) - 4 * ti;
        lemma_tdiv_abs(16 * ti * SCALE, deni);
        assert(16 * ti * SCALE <= SCALE * deni) by (nonlinear_arith)
            requires
                4 * ti <= (PI_FIX as int) * (PI_FIX as int),
                deni == 5 * ((PI_FIX as int) * (PI_FIX as int)) - 4 * ti,
                SCALE == 1_000_000,
                ti >= 0,
        ;
        lemma_div_is_ordered(16 * ti * SCALE, SCALE * deni, deni);
        lemma_div_by_multiple(SCALE as int, deni);
    }
    r as i64
}

/// Fixed-point sine; the result always lies within `[-SCALE, SCALE]`.
fn sin_fix(x: i64) -> (r: i64)
    ensures
        r as int == sin_spec(x as int),
        -SCALE <= r <= SCALE,
{
    let a = wrap_tau(x);
    if a <= PI_FIX {
        bhask_fix(a)
    } else {
        -bhask_fix(a - PI_FIX)
    }
}

/// Fixed-point cosine, as the sine shifted by a quarter turn.
fn cos_fix(x: i64) -> (r: i64)
    requires
        absi(x as int) <= 5_000_000_000_000,
    ensures
        r as int == cos_spec(x as int),
        -SCALE <= r <= SCALE,
{
    sin_fix(x + HALF_PI_FIX)
}

/// The renormalized view direction of a yaw/pitch pair.
fn dir_vec(yaw: i64, pitch: i64) -> (r: Vec3)
    requires
        absi(yaw as int) <= ANGLE_MAX as int,
        absi(pitch as int) <= ANGLE_MAX as int,
    ensures
        r@ == sdir(yaw as int, pitch as int),
        in_box(r@, SCALE as int),
        unitish(r@),
{
    let cy = cos_fix(yaw);
    let sy = sin_fix(yaw);
    let cp = cos_fix(pitch);
    let sp = sin_fix(pitch);
    proof {
        lemma_abs_mul_bound(cy as int, cp as int, SCALE as int, SCALE as int);
        lemma_abs_mul_bound(sy as int, cp as int, SCALE as int, SCALE as int);
    }
    let fx = tdiv128((cy as i128) * (cp as i128), SCALE as i128);
    let fz = tdiv128((sy as i128) * (cp as i128), SCALE as i128);
    let raw = Vec3 { x: fx as i64, y: sp, z: fz as i64 };
    let nsq = normsq128(raw);
    if nsq >= MIN_NSQ as u128 {
        proof {
            lemma_normalize_norm(raw@);
            lemma_normalize_in_box(raw@);
        }
        normalize3(raw)
    } else {
        proof {
            assert((SCALE as int) * (SCALE as int) == 1_000_000_000_000) by (nonlinear_arith)
                requires
                    SCALE == 1_000_000,
            ;
        }
        Vec3 { x: SCALE, y: 0, z: 0 }
    }
}

/// Derive `right` and `up` from a fresh unit `front`, keeping the old
/// basis at a degenerate pose.
fn basis_step(f: Vec3, fb: Vec3, rb: Vec3, ub: Vec3) -> (t: (Vec3, Vec3, Vec3))
    requires
        in_box(f@, SCALE as int),
        unitish(f@),
    ensures
        (t.0@, t.1@, t.2@) == basis_from_front(f@, (fb@, rb@, ub@)),
        wf_basis(fb@, rb@, ub@) ==> wf_basis(t.0@, t.1@, t.2@),
{
    let rr = Vec3 { x: -f.z, y: 0, z: f.x };
    let rsq = normsq128(rr);
    if rsq >= MIN_NSQ as u128 {
        proof {
            assert(sdot(rr@, f@) == 0) by (nonlinear_arith)
                requires
                    rr@ == (-f@.2, 0int, f@.0),
                    sdot(rr@, f@) == (-f@.2) * f@.0 + 0int * f@.1 + f@.0 * f@.2,
            ;
            lemma_normalize_norm(rr@);
            lemma_normalize_in_box(rr@);
            lemma_normalize_orthogonal(rr@, f@, SCALE as int);
        }
        let r = normalize3(rr);
        let ur = cross3(r, f);
        let usq = normsq128(ur);
        if usq >= MIN_NSQ as u128 {
            proof {
                lemma_cross_orthogonal(r@, f@);
                lemma_normalize_norm(ur@);
                lemma_normalize_in_box(ur@);
                lemma_normalize_orthogonal(ur@, f@, SCALE as int);
                lemma_normalize_orthogonal(ur@, r@, SCALE as int);
            }
            let u = normalize3(ur);
            (f, r, u)
        } else {
            (fb, rb, ub)
        }
    } else {
        (fb, rb, ub)
    }
}

} // verus!
