//! Point masses and the pairwise gravitational integrator.
//!
//! Accelerations follow Newton's law of gravitation with the scaled
//! constant `G = 66_743e-12` simulation units. In raw fixed-point values
//! the contribution of body `j` on body `i` reduces to
//! `G_NUM * mass_j * d / (r2 * r)` where `d` is the raw separation vector,
//! `r2` its exact squared norm and `r` the floor square root of `r2`
//! (the two factors of `SCALE * SCALE` cancel against the denominator of
//! `G`). A separation below one raw unit (shorter than any representable
//! nonzero vector, and in particular shorter than the guard distance
//! `1e-9`) contributes exactly zero: an intentional safety clamp, not a
//! softened potential. The integration scheme is semi-implicit Euler:
//! `accelerate` updates velocities from the positions all as they stood at
//! the start of the call (a two-phase pass), then `move_bodies` moves each
//! body along its updated velocity.
//!
//! Every state component is clamped into a fixed representable range
//! (`POS_MAX`, `VEL_MAX`, `ACC_MAX`), the fixed-point counterpart of the
//! finite range of floating-point state; the contracts state the clamps
//! exactly.

use vstd::prelude::*;

verus! {

use crate::fixed::{SCALE, absi, tdiv, clampi, sqrt_floor, tdiv128, clamp128, isqrt,
    lemma_sqrt_floor_at_least, lemma_sqrt_floor_bounds, lemma_tdiv_zero, lemma_tdiv_abs,
    lemma_tdiv_scale, lemma_abs_mul_bound,
};
use crate::vec3::{Vec3, V3, snormsq, sadd, ssub, sneg, sscale, stdiv3, sclamp3, in_box,
    lemma_normsq_nonneg,
};

/// Numerator of the gravitational constant: `G = G_NUM * 1e-12`.
pub const G_NUM: i64 = 66_743;

/// Largest representable position component.
pub const POS_MAX: i64 = 1_000_000_000_000;

/// Largest representable velocity component.
pub const VEL_MAX: i64 = 1_000_000_000_000;

/// Largest representable body mass magnitude.
pub const MASS_MAX: i64 = 10_000_000_000_000_000;

/// Largest representable acceleration component.
pub const ACC_MAX: i64 = 1_000_000_000_000_000_000;

/// Largest time step accepted for one integration pass.
pub const DT_MAX: i64 = 1_000_000_000;

/// Largest number of bodies a system can hold.
pub const MAX_BODIES: usize = 10_000;

/// Divisor taking raw positions to display units (the position scale
/// factor `0.001`).
pub const CENTER_DIV: i64 = 1_000;

/// Color as a fixed-point RGB triple; channels range over `[0, SCALE]`.
#[derive(Clone, Copy, PartialEq, Eq, Structural, Debug)]
pub struct Rgb {
    pub r: i64,
    pub g: i64,
    pub b: i64,
}

/// A point mass: physical state plus visual attributes.
#[derive(Clone, Copy, PartialEq, Eq, Structural, Debug)]
pub struct Body {
    pub mass: i64,
    pub radius: i64,
    pub position: Vec3,
    pub velocity: Vec3,
    pub color: Rgb,
}

/// Acceleration of a unit at `pi` due to a mass `mj` at `pj`: zero for a
/// zero separation, else `G_NUM * mj * d / (r2 * r)` per component,
/// truncated and clamped into `[-ACC_MAX, ACC_MAX]`.
pub open spec fn grav_accel(pi: V3, pj: V3, mj: int) -> V3 {
    let d = ssub(pj, pi);
    let r2 = snormsq(d);
    if r2 == 0 {
        (0int, 0int, 0int)
    } else {
        let r = sqrt_floor(r2 as nat) as int;
        sclamp3(stdiv3(sscale(d, G_NUM * mj), r2 * r), ACC_MAX as int)
    }
}

/// Sum of the contributions of bodies `j < k`, `j != i`, on body `i`,
/// over the positions and masses in `bs`.
pub open spec fn acc_sum(bs: Seq<Body>, i: int, k: int) -> V3
    decreases k,
{
    if k <= 0 {
        (0int, 0int, 0int)
    } else if k - 1 == i {
        acc_sum(bs, i, k - 1)
    } else {
        sadd(
            acc_sum(bs, i, k - 1),
            grav_accel(bs[i].position@, bs[k - 1].position@, bs[k - 1].mass as int),
        )
    }
}

/// Velocity after one kick: `v + a * dt / SCALE`, clamped.
pub open spec fn vel_kick(v: V3, a: V3, dt: int) -> V3 {
    sclamp3(sadd(v, stdiv3(sscale(a, dt), SCALE as int)), VEL_MAX as int)
}

/// Velocity of body `i` after one full accumulate-then-kick pass.
pub open spec fn vel_after(bs: Seq<Body>, i: int, dt: int) -> V3 {
    vel_kick(bs[i].velocity@, acc_sum(bs, i, bs.len() as int), dt)
}

/// Position after one drift: `p + v * dt / SCALE`, clamped.
pub open spec fn drift(p: V3, v: V3, dt: int) -> V3 {
    sclamp3(sadd(p, stdiv3(sscale(v, dt), SCALE as int)), POS_MAX as int)
}

pub open spec fn pos_after(b: Body, dt: int) -> V3 {
    drift(b.position@, b.velocity@, dt)
}

/// Total mass of the first `k` bodies.
pub open spec fn mass_sum(bs: Seq<Body>, k: int) -> int
    decreases k,
{
    if k <= 0 {
        0
    } else {
        mass_sum(bs, k - 1) + bs[k - 1].mass
    }
}

/// Mass-weighted position sum of the first `k` bodies.
pub open spec fn weighted_sum(bs: Seq<Body>, k: int) -> V3
    decreases k,
{
    if k <= 0 {
        (0int, 0int, 0int)
    } else {
        sadd(weighted_sum(bs, k - 1), sscale(bs[k - 1].position@, bs[k - 1].mass as int))
    }
}

/// Mass-weighted center in display units: zero for an empty system or a
/// zero total mass, else the weighted average scaled by `1 / CENTER_DIV`.
pub open spec fn center_spec(bs: Seq<Body>) -> V3 {
    let m = mass_sum(bs, bs.len() as int);
    if bs.len() == 0 || m == 0 {
        (0int, 0int, 0int)
    } else {
        sclamp3(
            stdiv3(stdiv3(weighted_sum(bs, bs.len() as int), m), CENTER_DIV as int),
            POS_MAX as int,
        )
    }
}

impl Body {
    /// The default body as a spec value.
    pub open spec fn spec_default() -> Body {
        Body {
            mass: 1_000_000_000_000_000,
            radius: 5_000_000,
            position: Vec3 { x: 0, y: 0, z: 0 },
            velocity: Vec3 { x: 0, y: 0, z: 0 },
            color: Rgb { r: 1_000_000, g: 1_000_000, b: 1_000_000 },
        }
    }

    /// State within the representable simulation domain.
    pub open spec fn wf(self) -> bool {
        &&& in_box(self.position@, POS_MAX as int)
        &&& in_box(self.velocity@, VEL_MAX as int)
        &&& absi(self.mass as int) <= MASS_MAX as int
    }

    /// The default body: mass of `1e9` simulation units, radius `5`,
    /// at rest at the origin, white.
    pub fn new() -> (b: Body)
        ensures
            b.wf(),
            b.mass == 1_000_000_000_000_000i64,
            b.radius == 5 * SCALE,
            b.position@ == (0int, 0int, 0int),
            b.velocity@ == (0int, 0int, 0int),
            b.color == (Rgb { r: SCALE, g: SCALE, b: SCALE }),
    {
        Body {
            mass: 1_000_000_000_000_000,
            radius: 5 * SCALE,
            position: Vec3::zero(),
            velocity: Vec3::zero(),
            color: Rgb { r: SCALE, g: SCALE, b: SCALE },
        }
    }

    /// Acceleration this body receives from `other`.
    pub fn find_acceleration(&self, other: &Body) -> (a: Vec3)
        requires
            self.wf(),
            other.wf(),
        ensures
            a@ == grav_accel(self.position@, other.position@, other.mass as int),
            in_box(a@, ACC_MAX as int),
    {
        let dx = other.position.x - self.position.x;
        let dy = other.position.y - self.position.y;
        let dz = other.position.z - self.position.z;
        let d = Vec3 { x: dx, y: dy, z: dz };
        let r2 = crate::vec3::normsq128(d);
        if r2 == 0 {
            Vec3::zero()
        } else {
            proof {
                lemma_normsq_nonneg(d@);
                lemma_sqrt_floor_at_least(r2 as nat, 1);
                lemma_sqrt_floor_bounds(r2 as nat);
                assert(snormsq(d@) <= 12_000_000_000_000_000_000_000_000) by (nonlinear_arith)
                    requires
                        -2_000_000_000_000 <= d@.0 <= 2_000_000_000_000,
                        -2_000_000_000_000 <= d@.1 <= 2_000_000_000_000,
                        -2_000_000_000_000 <= d@.2 <= 2_000_000_000_000,
                        snormsq(d@) == d@.0 * d@.0 + d@.1 * d@.1 + d@.2 * d@.2,
                ;
            }
            let r = isqrt(r2);
            proof {
                let rr = r as int;
                assert(rr <= 4_000_000_000_000) by (nonlinear_arith)
                    requires
                        rr * rr <= 12_000_000_000_000_000_000_000_000,
                        rr >= 0,
                ;
                assert((r2 as int) * rr <= 12_000_000_000_000_000_000_000_000
                    * 4_000_000_000_000) by (nonlinear_arith)
                    requires
                        0 < r2 as int <= 12_000_000_000_000_000_000_000_000,
                        0 <= rr <= 4_000_000_000_000,
                ;
            }
            let r3 = (r2 as i128) * (r as i128);
            let gm = (G_NUM as i128) * (other.mass as i128);
            proof {
                lemma_abs_mul_bound(dx as int, G_NUM * other.mass, 2_000_000_000_000,
                    (66_743 * 10_000_000_000_000_000) as int);
                lemma_abs_mul_bound(dy as int, G_NUM * other.mass, 2_000_000_000_000,
                    (66_743 * 10_000_000_000_000_000) as int);
                lemma_abs_mul_bound(dz as int, G_NUM * other.mass, 2_000_000_000_000,
                    (66_743 * 10_000_000_000_000_000) as int);
                assert(absi(G_NUM * other.mass) <= (66_743 * 10_000_000_000_000_000) as int)
                    by (nonlinear_arith)
                    requires
                        absi(other.mass as int) <= 10_000_000_000_000_000,
                        G_NUM == 66_743,
                ;
            }
            proof {
                assert((r2 as int) * (r as int) >= 1) by (nonlinear_arith)
                    requires
                        r2 as int >= 1,
                        r as int >= 1,
                ;
            }
            let ax = clamp128(tdiv128((dx as i128) * gm, r3), ACC_MAX);
            let ay = clamp128(tdiv128((dy as i128) * gm, r3), ACC_MAX);
            let az = clamp128(tdiv128((dz as i128) * gm, r3), ACC_MAX);
            Vec3 { x: ax, y: ay, z: az }
        }
    }

    /// Kick: `velocity += a * dt / SCALE`, clamped into the velocity range.
    pub fn accelerate(&mut self, a: Vec3, dt: i64)
        requires
            in_box(a@, ACC_MAX as int),
            in_box(old(self).velocity@, VEL_MAX as int),
            0 <= dt <= DT_MAX,
        ensures
            final(self).velocity@ == vel_kick(old(self).velocity@, a@, dt as int),
            final(self).position == old(self).position,
            final(self).mass == old(self).mass,
            final(self).radius == old(self).radius,
            final(self).color == old(self).color,
    {
        proof {
            lemma_abs_mul_bound(a@.0, dt as int, ACC_MAX as int, DT_MAX as int);
            lemma_abs_mul_bound(a@.1, dt as int, ACC_MAX as int, DT_MAX as int);
            lemma_abs_mul_bound(a@.2, dt as int, ACC_MAX as int, DT_MAX as int);
        }
        let dvx = tdiv128((a.x as i128) * (dt as i128), SCALE as i128);
        let dvy = tdiv128((a.y as i128) * (dt as i128), SCALE as i128);
        let dvz = tdiv128((a.z as i128) * (dt as i128), SCALE as i128);
        self.velocity = Vec3 {
            x: clamp128((self.velocity.x as i128) + dvx, VEL_MAX),
            y: clamp128((self.velocity.y as i128) + dvy, VEL_MAX),
            z: clamp128((self.velocity.z as i128) + dvz, VEL_MAX),
        };
    }

    /// Kick by the acceleration received from one other body.
    pub fn accelerate_by_body(&mut self, other: &Body, dt: i64)
        requires
            old(self).wf(),
            other.wf(),
            0 <= dt <= DT_MAX,
        ensures
            final(self).velocity@ == vel_kick(
                old(self).velocity@,
                grav_accel(old(self).position@, other.position@, other.mass as int),
                dt as int,
            ),
            final(self).position == old(self).position,
            final(self).mass == old(self).mass,
            final(self).radius == old(self).radius,
            final(self).color == old(self).color,
    {
        let a = self.find_acceleration(other);
        self.accelerate(a, dt);
    }

    /// Drift: `position += velocity * dt / SCALE`, clamped into the
    /// position range.
    pub fn move_sphere(&mut self, dt: i64)
        requires
            in_box(old(self).velocity@, VEL_MAX as int),
            0 <= dt <= DT_MAX,
        ensures
            final(self).position@ == pos_after(*old(self), dt as int),
            final(self).velocity == old(self).velocity,
            final(self).mass == old(self).mass,
            final(self).radius == old(self).radius,
            final(self).color == old(self).color,
    {
        proof {
            lemma_abs_mul_bound(self.velocity.x as int, dt as int, VEL_MAX as int, DT_MAX as int);
            lemma_abs_mul_bound(self.velocity.y as int, dt as int, VEL_MAX as int, DT_MAX as int);
            lemma_abs_mul_bound(self.velocity.z as int, dt as int, VEL_MAX as int, DT_MAX as int);
        }
        let dpx = tdiv128((self.velocity.x as i128) * (dt as i128), SCALE as i128);
        let dpy = tdiv128((self.velocity.y as i128) * (dt as i128), SCALE as i128);
        let dpz = tdiv128((self.velocity.z as i128) * (dt as i128), SCALE as i128);
        self.position = Vec3 {
            x: clamp128((self.position.x as i128) + dpx, POS_MAX),
            y: clamp128((self.position.y as i128) + dpy, POS_MAX),
            z: clamp128((self.position.z as i128) + dpz, POS_MAX),
        };
    }
}

/// Per-body acceleration accumulator, wide enough for `MAX_BODIES`
/// clamped contributions.
struct Acc3 {
    x: i128,
    y: i128,
    z: i128,
}

/// The ordered collection of bodies plus the integration algorithms.
pub struct System {
    bodies: Vec<Body>,
}

impl System {
    /// Every body within the representable domain, and not more bodies
    /// than one pass can accumulate.
    pub open spec fn wf(self) -> bool {
        &&& self@.len() <= MAX_BODIES
        &&& forall|i: int| 0 <= i < self@.len() ==> #[trigger] self@[i].wf()
    }

    pub closed spec fn view(self) -> Seq<Body> {
        self.bodies@
    }

    pub fn new() -> (s: System)
        ensures
            s.wf(),
            s@.len() == 0,
    {
        System { bodies: Vec::new() }
    }

    /// Read access to the ordered body list.
    pub fn bodies(&self) -> (r: &Vec<Body>)
        ensures
            r@ == self@,
    {
        &self.bodies
    }

    pub fn len(&self) -> (n: usize)
        ensures
            n == self@.len(),
    {
        self.bodies.len()
    }

    /// Append a body.
    pub fn push_body(&mut self, b: Body)
        requires
            old(self).wf(),
            b.wf(),
            old(self)@.len() < MAX_BODIES,
        ensures
            final(self)@ == old(self)@.push(b),
            final(self).wf(),
    {
        self.bodies.push(b);
    }

    /// Remove the body at `i`, shifting the later ones down.
    pub fn remove_body(&mut self, i: usize)
        requires
            old(self).wf(),
            i < old(self)@.len(),
        ensures
            final(self)@ == old(self)@.remove(i as int),
            final(self).wf(),
    {
        self.bodies.remove(i);
    }

    /// Replace the body at `i`.
    pub fn set_body(&mut self, i: usize, b: Body)
        requires
            old(self).wf(),
            i < old(self)@.len(),
            b.wf(),
        ensures
            final(self)@ == old(self)@.update(i as int, b),
            final(self).wf(),
    {
        self.bodies[i] = b;
    }

    /// One velocity pass: for every body, accumulate the contributions of
    /// all other bodies over the positions as they stood at the start of
    /// the call, then kick its velocity once. Positions, masses, radii
    /// and colors are untouched.
    pub fn accelerate(&mut self, dt: i64)
        requires
            old(self).wf(),
            0 <= dt <= DT_MAX,
        ensures
            final(self)@.len() == old(self)@.len(),
            forall|i: int|
                0 <= i < old(self)@.len() ==> {
                    &&& (#[trigger] final(self)@[i]).velocity@ == vel_after(
                        old(self)@,
                        i,
                        dt as int,
                    )
                    &&& final(self)@[i].position == old(self)@[i].position
                    &&& final(self)@[i].mass == old(self)@[i].mass
                    &&& final(self)@[i].radius == old(self)@[i].radius
                    &&& final(self)@[i].color == old(self)@[i].color
                },
            final(self).wf(),
    {
        let ghost bs = self.bodies@;
        let n = self.bodies.len();
        let mut acc: Vec<Acc3> = Vec::new();
        let mut i: usize = 0;
        while i < n
            invariant
                self.bodies@ == bs,
                self.wf(),
                n == bs.len() <= MAX_BODIES,
                acc@.len() == i <= n,
                0 <= dt <= DT_MAX,
                forall|k: int|
                    0 <= k < i ==> {
                        &&& (#[trigger] acc@[k].x as int, acc@[k].y as int, acc@[k].z as int)
                            == acc_sum(bs, k, n as int)
                    },
            decreases n - i,
        {
            let mut ax: i128 = 0;
            let mut ay: i128 = 0;
            let mut az: i128 = 0;
            let mut j: usize = 0;
            while j < n
                invariant
                    self.bodies@ == bs,
                    self.wf(),
                    n == bs.len() <= MAX_BODIES,
                    i < n,
                    j <= n,
                    (ax as int, ay as int, az as int) == acc_sum(bs, i as int, j as int),
                    absi(ax as int) <= j * (ACC_MAX as int),
                    absi(ay as int) <= j * (ACC_MAX as int),
                    absi(az as int) <= j * (ACC_MAX as int),
                decreases n - j,
            {
                if j != i {
                    let bi = self.bodies[i];
                    let a = bi.find_acceleration(&self.bodies[j]);
                    ax = ax + (a.x as i128);
                    ay = ay + (a.y as i128);
                    az = az + (a.z as i128);
                }
                j += 1;
            }
            acc.push(Acc3 { x: ax, y: ay, z: az });
            i += 1;
        }
        let mut i: usize = 0;
        while i < n
            invariant
                self.bodies@.len() == bs.len(),
                n == bs.len() <= MAX_BODIES,
                acc@.len() == n,
                0 <= dt <= DT_MAX,
                forall|k: int| 0 <= k < n ==> (#[trigger] bs[k]).wf(),
                forall|k: int|
                    0 <= k < n ==> {
                        &&& (#[trigger] acc@[k].x as int, acc@[k].y as int, acc@[k].z as int)
                            == acc_sum(bs, k, n as int)
                    },
                forall|k: int| i <= k < n ==> #[trigger] self.bodies@[k] == bs[k],
                forall|k: int|
                    0 <= k < i ==> {
                        &&& (#[trigger] self.bodies@[k]).velocity@ == vel_after(bs, k, dt as int)
                        &&& self.bodies@[k].position == bs[k].position
                        &&& self.bodies@[k].mass == bs[k].mass
                        &&& self.bodies@[k].radius == bs[k].radius
                        &&& self.bodies@[k].color == bs[k].color
                        &&& self.bodies@[k].wf()
                    },
            decreases n - i,
        {
            let sum = &acc[i];
            proof {
                lemma_acc_sum_bound(bs, i as int, n as int);
                lemma_abs_mul_bound(sum.x as int, dt as int, 10_000 * (ACC_MAX as int),
                    DT_MAX as int);
                lemma_abs_mul_bound(sum.y as int, dt as int, 10_000 * (ACC_MAX as int),
                    DT_MAX as int);
                lemma_abs_mul_bound(sum.z as int, dt as int, 10_000 * (ACC_MAX as int),
                    DT_MAX as int);
            }
            let dvx = tdiv128(sum.x * (dt as i128), SCALE as i128);
            let dvy = tdiv128(sum.y * (dt as i128), SCALE as i128);
            let dvz = tdiv128(sum.z * (dt as i128), SCALE as i128);
            let mut b = self.bodies[i];
            b.velocity = Vec3 {
                x: clamp128((b.velocity.x as i128) + dvx, VEL_MAX),
                y: clamp128((b.velocity.y as i128) + dvy, VEL_MAX),
                z: clamp128((b.velocity.z as i128) + dvz, VEL_MAX),
            };
            self.bodies[i] = b;
            i += 1;
        }
    }

    /// One drift pass: every body moves along its velocity.
    pub fn move_bodies(&mut self, dt: i64)
        requires
            old(self).wf(),
            0 <= dt <= DT_MAX,
        ensures
            final(self)@.len() == old(self)@.len(),
            forall|i: int|
                0 <= i < old(self)@.len() ==> {
                    &&& (#[trigger] final(self)@[i]).position@ == pos_after(
                        old(self)@[i],
                        dt as int,
                    )
                    &&& final(self)@[i].velocity == old(self)@[i].velocity
                    &&& final(self)@[i].mass == old(self)@[i].mass
                    &&& final(self)@[i].radius == old(self)@[i].radius
                    &&& final(self)@[i].color == old(self)@[i].color
                },
            final(self).wf(),
    {
        let ghost bs = self.bodies@;
        let n = self.bodies.len();
        let mut i: usize = 0;
        while i < n
            invariant
                self.bodies@.len() == bs.len(),
                n == bs.len() <= MAX_BODIES,
                0 <= dt <= DT_MAX,
                forall|k: int| i <= k < n ==> #[trigger] self.bodies@[k] == bs[k],
                forall|k: int| 0 <= k < n ==> (#[trigger] bs[k]).wf(),
                forall|k: int|
                    0 <= k < i ==> {
                        &&& (#[trigger] self.bodies@[k]).position@ == pos_after(bs[k], dt as int)
                        &&& self.bodies@[k].velocity == bs[k].velocity
                        &&& self.bodies@[k].mass == bs[k].mass
                        &&& self.bodies@[k].radius == bs[k].radius
                        &&& self.bodies@[k].color == bs[k].color
                        &&& self.bodies@[k].wf()
                    },
            decreases n - i,
        {
            let mut b = self.bodies[i];
            b.move_sphere(dt);
            self.bodies[i] = b;
            i += 1;
        }
    }

    /// Mass-weighted center of the system in display units; the zero
    /// vector for an empty system (or a zero mass total, which a division
    /// could not survive).
    pub fn mass_center(&self) -> (c: Vec3)
        requires
            self.wf(),
        ensures
            c@ == center_spec(self@),
            in_box(c@, POS_MAX as int),
    {
        let n = self.bodies.len();
        if n == 0 {
            return Vec3::zero();
        }
        let mut wx: i128 = 0;
        let mut wy: i128 = 0;
        let mut wz: i128 = 0;
        let mut m: i128 = 0;
        let mut i: usize = 0;
        while i < n
            invariant
                self.wf(),
                n == self@.len(),
                i <= n,
                (wx as int, wy as int, wz as int) == weighted_sum(self@, i as int),
                m as int == mass_sum(self@, i as int),
                absi(wx as int) <= i * 10_000_000_000_000_000_000_000_000_000,
                absi(wy as int) <= i * 10_000_000_000_000_000_000_000_000_000,
                absi(wz as int) <= i * 10_000_000_000_000_000_000_000_000_000,
                absi(m as int) <= i * (MASS_MAX as int),
            decreases n - i,
        {
            let b = &self.bodies[i];
            proof {
                assert(self@[i as int].wf());
                lemma_abs_mul_bound(b.position.x as int, b.mass as int, POS_MAX as int,
                    MASS_MAX as int);
                lemma_abs_mul_bound(b.position.y as int, b.mass as int, POS_MAX as int,
                    MASS_MAX as int);
                lemma_abs_mul_bound(b.position.z as int, b.mass as int, POS_MAX as int,
                    MASS_MAX as int);
                assert((POS_MAX as int) * (MASS_MAX as int) == 10_000_000_000_000_000_000_000_000_000)
                    by (nonlinear_arith)
                    requires
                        POS_MAX == 1_000_000_000_000,
                        MASS_MAX == 10_000_000_000_000_000,
                ;
            }
            wx = wx + (b.position.x as i128) * (b.mass as i128);
            wy = wy + (b.position.y as i128) * (b.mass as i128);
            wz = wz + (b.position.z as i128) * (b.mass as i128);
            m = m + (b.mass as i128);
            i += 1;
        }
        if m == 0 {
            return Vec3::zero();
        }
        let cx = clamp128(tdiv128s(tdiv128s(wx, m), CENTER_DIV as i128), POS_MAX);
        let cy = clamp128(tdiv128s(tdiv128s(wy, m), CENTER_DIV as i128), POS_MAX);
        let cz = clamp128(tdiv128s(tdiv128s(wz, m), CENTER_DIV as i128), POS_MAX);
        Vec3 { x: cx, y: cy, z: cz }
    }
}

/// Truncating division by a nonzero divisor of either sign.
fn tdiv128s(a: i128, b: i128) -> (r: i128)
    requires
        b != 0,
        a > i128::MIN,
        b > i128::MIN,
    ensures
        r == tdiv(a as int, b as int),
        absi(r as int) <= absi(a as int),
{
    if b > 0 {
        tdiv128(a, b)
    } else {
        tdiv128(-a, -b)
    }
}

/// The accumulated acceleration over `k` bodies is at most `k` clamped
/// contributions long, per component.
pub proof fn lemma_acc_sum_bound(bs: Seq<Body>, i: int, k: int)
    requires
        0 <= k,
    ensures
        in_box(acc_sum(bs, i, k), k * (ACC_MAX as int)),
    decreases k,
{
    if k > 0 {
        lemma_acc_sum_bound(bs, i, k - 1);
        if k - 1 != i {
            let c = grav_accel(bs[i].position@, bs[k - 1].position@, bs[k - 1].mass as int);
            assert(in_box(c, ACC_MAX as int));
        }
    }
}

/// In a single-body system, `accelerate` leaves the velocity unchanged:
/// there is no self-force.
pub proof fn lemma_single_body_velocity(bs: Seq<Body>, dt: int)
    requires
        bs.len() == 1,
        bs[0].wf(),
        0 <= dt <= DT_MAX,
    ensures
        vel_after(bs, 0, dt) == bs[0].velocity@,
{
    assert(acc_sum(bs, 0, 1) == acc_sum(bs, 0, 0));
    lemma_tdiv_zero(SCALE as int);
    assert(sscale((0int, 0int, 0int), dt) == (0int * dt, 0int * dt, 0int * dt));
    assert(0int * dt == 0) by (nonlinear_arith);
}

/// Zero time step: neither the velocity kick nor the position drift
/// changes any body state.
pub proof fn lemma_zero_dt(bs: Seq<Body>, i: int)
    requires
        0 <= i < bs.len(),
        bs[i].wf(),
    ensures
        vel_after(bs, i, 0) == bs[i].velocity@,
        pos_after(bs[i], 0) == bs[i].position@,
{
    lemma_tdiv_zero(SCALE as int);
    let a = acc_sum(bs, i, bs.len() as int);
    assert(a.0 * 0 == 0 && a.1 * 0 == 0 && a.2 * 0 == 0) by (nonlinear_arith);
    let v = bs[i].velocity@;
    assert(v.0 * 0 == 0 && v.1 * 0 == 0 && v.2 * 0 == 0) by (nonlinear_arith);
}

/// Newton's third law for the clamped fixed-point accelerations: the
/// contribution of `j` on `i` is the exact negation of that of `i` on
/// `j`, masses being equal.
pub proof fn lemma_contrib_antisymmetric(p0: V3, p1: V3, m: int)
    ensures
        grav_accel(p0, p1, m) == sneg(grav_accel(p1, p0, m)),
{
    let d = ssub(p1, p0);
    let e = ssub(p0, p1);
    assert(e == sneg(d));
    assert(snormsq(e) == snormsq(d)) by (nonlinear_arith)
        requires
            e.0 == -d.0 && e.1 == -d.1 && e.2 == -d.2,
            snormsq(e) == e.0 * e.0 + e.1 * e.1 + e.2 * e.2,
            snormsq(d) == d.0 * d.0 + d.1 * d.1 + d.2 * d.2,
    ;
    let r2 = snormsq(d);
    if r2 != 0 {
        let r = sqrt_floor(r2 as nat) as int;
        lemma_normsq_nonneg(d);
        lemma_sqrt_floor_at_least(r2 as nat, 1);
        assert(r2 * r >= 1) by (nonlinear_arith)
            requires
                r2 >= 1,
                r >= 1,
        ;
        assert(sscale(e, G_NUM * m) == sneg(sscale(d, G_NUM * m))) by (nonlinear_arith)
            requires
                e.0 == -d.0 && e.1 == -d.1 && e.2 == -d.2,
                sscale(e, G_NUM * m) == (e.0 * (G_NUM * m), e.1 * (G_NUM * m), e.2 * (G_NUM
                    * m)),
                sscale(d, G_NUM * m) == (d.0 * (G_NUM * m), d.1 * (G_NUM * m), d.2 * (G_NUM
                    * m)),
    ;
        let s = sscale(d, G_NUM * m);
        lemma_tdiv_abs(s.0, r2 * r);
        lemma_tdiv_abs(s.1, r2 * r);
        lemma_tdiv_abs(s.2, r2 * r);
    }
}

/// For a two-body system with equal masses the accumulated accelerations
/// are equal in magnitude and opposite in direction, exactly.
pub proof fn lemma_pair_opposite(bs: Seq<Body>)
    requires
        bs.len() == 2,
        bs[0].mass == bs[1].mass,
    ensures
        acc_sum(bs, 0, 2) == sneg(acc_sum(bs, 1, 2)),
{
    lemma_contrib_antisymmetric(bs[0].position@, bs[1].position@, bs[0].mass as int);
    assert(acc_sum(bs, 0, 2) == sadd(
        acc_sum(bs, 0, 1),
        grav_accel(bs[0].position@, bs[1].position@, bs[1].mass as int),
    ));
    assert(acc_sum(bs, 0, 1) == acc_sum(bs, 0, 0));
    assert(acc_sum(bs, 1, 2) == acc_sum(bs, 1, 1));
    assert(acc_sum(bs, 1, 1) == sadd(
        acc_sum(bs, 1, 0),
        grav_accel(bs[1].position@, bs[0].position@, bs[0].mass as int),
    ));
}

/// For a two-body system with equal positive masses the mass center is
/// the arithmetic midpoint, scaled into display units.
pub proof fn lemma_pair_mass_center(bs: Seq<Body>)
    requires
        bs.len() == 2,
        bs[0].mass == bs[1].mass,
        bs[0].mass >= 1,
        bs[0].wf(),
        bs[1].wf(),
    ensures
        center_spec(bs) == stdiv3(
            stdiv3(sadd(bs[0].position@, bs[1].position@), 2),
            CENTER_DIV as int,
        ),
{
    let m = bs[0].mass as int;
    let p0 = bs[0].position@;
    let p1 = bs[1].position@;
    let w = weighted_sum(bs, 2);
    assert(mass_sum(bs, 0) == 0);
    assert(mass_sum(bs, 1) == m);
    assert(mass_sum(bs, 2) == 2 * m);
    assert(weighted_sum(bs, 0) == (0int, 0int, 0int));
    assert(weighted_sum(bs, 1) == sadd((0int, 0int, 0int), sscale(p0, m)));
    assert(w == sadd(weighted_sum(bs, 1), sscale(p1, m)));
    assert(w.0 == m * (p0.0 + p1.0) && w.1 == m * (p0.1 + p1.1) && w.2 == m * (p0.2 + p1.2))
        by (nonlinear_arith)
        requires
            w.0 == p0.0 * m + p1.0 * m,
            w.1 == p0.1 * m + p1.1 * m,
            w.2 == p0.2 * m + p1.2 * m,
    ;
    lemma_tdiv_scale(p0.0 + p1.0, 2, m);
    lemma_tdiv_scale(p0.1 + p1.1, 2, m);
    lemma_tdiv_scale(p0.2 + p1.2, 2, m);
    assert(m * 2 == 2 * m);
    let half = stdiv3(sadd(p0, p1), 2);
    assert(stdiv3(w, 2 * m) == half);
    lemma_tdiv_abs(p0.0 + p1.0, 2);
    lemma_tdiv_abs(p0.1 + p1.1, 2);
    lemma_tdiv_abs(p0.2 + p1.2, 2);
    lemma_tdiv_abs(half.0, CENTER_DIV as int);
    lemma_tdiv_abs(half.1, CENTER_DIV as int);
    lemma_tdiv_abs(half.2, CENTER_DIV as int);
    assert(clampi(tdiv(half.0, CENTER_DIV as int), POS_MAX as int) == tdiv(
        half.0,
        CENTER_DIV as int,
    ));
}

} // verus!
