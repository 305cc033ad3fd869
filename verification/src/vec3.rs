//! Fixed-point 3D vectors.
//!
//! A `Vec3` holds three fixed-point scalars. The spec-level model is a
//! triple of unbounded integers; renormalization divides by the floor of
//! the integer square root of the squared norm, so a "unit" vector has a
//! squared norm close to `SCALE * SCALE`, with the deviation bounded by
//! the lemmas below.

use vstd::prelude::*;

verus! {

use vstd::arithmetic::div_mod::{lemma_div_is_ordered, lemma_div_by_multiple};
use crate::fixed::{
    SCALE, absi, tdiv, clampi, sqrt_floor, tdiv128, clamp128, isqrt,
    lemma_sqrt_floor_bounds, lemma_sqrt_floor_at_least, lemma_tdiv_rem, lemma_tdiv_abs,
    lemma_abs_mul_bound,
};

/// Spec-level model of a vector: three unbounded integers.
pub type V3 = (int, int, int);

/// Smallest squared-norm input (as `MIN_NORM * MIN_NORM`) for which
/// renormalization is guaranteed accurate by `lemma_normalize_norm`.
pub const MIN_NORM: i64 = 50_000;

#[derive(Clone, Copy, PartialEq, Eq, Structural, Debug)]
pub struct Vec3 {
    pub x: i64,
    pub y: i64,
    pub z: i64,
}

impl View for Vec3 {
    type V = V3;

    open spec fn view(&self) -> V3 {
        (self.x as int, self.y as int, self.z as int)
    }
}

pub open spec fn sdot(a: V3, b: V3) -> int {
    a.0 * b.0 + a.1 * b.1 + a.2 * b.2
}

pub open spec fn snormsq(a: V3) -> int {
    sdot(a, a)
}

pub open spec fn sadd(a: V3, b: V3) -> V3 {
    (a.0 + b.0, a.1 + b.1, a.2 + b.2)
}

pub open spec fn ssub(a: V3, b: V3) -> V3 {
    (a.0 - b.0, a.1 - b.1, a.2 - b.2)
}

pub open spec fn sneg(a: V3) -> V3 {
    (-a.0, -a.1, -a.2)
}

pub open spec fn sscale(a: V3, k: int) -> V3 {
    (a.0 * k, a.1 * k, a.2 * k)
}

pub open spec fn stdiv3(a: V3, d: int) -> V3
    recommends
        d != 0,
{
    (tdiv(a.0, d), tdiv(a.1, d), tdiv(a.2, d))
}

pub open spec fn sclamp3(a: V3, m: int) -> V3
    recommends
        m >= 0,
{
    (clampi(a.0, m), clampi(a.1, m), clampi(a.2, m))
}

pub open spec fn scross(a: V3, b: V3) -> V3 {
    (a.1 * b.2 - a.2 * b.1, a.2 * b.0 - a.0 * b.2, a.0 * b.1 - a.1 * b.0)
}

/// All three components within `[-m, m]`.
pub open spec fn in_box(a: V3, m: int) -> bool {
    absi(a.0) <= m && absi(a.1) <= m && absi(a.2) <= m
}

/// Renormalization: scale to length `SCALE` by dividing through the floor
/// square root of the squared norm, truncating toward zero.
pub open spec fn snormalize(a: V3) -> V3
    recommends
        snormsq(a) >= 1,
{
    let n = sqrt_floor(snormsq(a) as nat) as int;
    (tdiv(SCALE * a.0, n), tdiv(SCALE * a.1, n), tdiv(SCALE * a.2, n))
}

impl Vec3 {
    pub fn zero() -> (r: Vec3)
        ensures
            r@ == (0int, 0int, 0int),
    {
        Vec3 { x: 0, y: 0, z: 0 }
    }

    pub fn new(x: i64, y: i64, z: i64) -> (r: Vec3)
        ensures
            r@ == (x as int, y as int, z as int),
    {
        Vec3 { x, y, z }
    }
}

/// Squares are nonnegative, so a squared norm is nonnegative.
pub proof fn lemma_normsq_nonneg(a: V3)
    ensures
        snormsq(a) >= 0,
        a.0 * a.0 >= 0,
        a.1 * a.1 >= 0,
        a.2 * a.2 >= 0,
{
    assert(a.0 * a.0 >= 0 && a.1 * a.1 >= 0 && a.2 * a.2 >= 0) by (nonlinear_arith);
}

/// Each component is bounded by the floor square root of the squared norm.
pub proof fn lemma_component_le_root(a: V3)
    ensures
        in_box(a, sqrt_floor(snormsq(a) as nat) as int),
{
    lemma_normsq_nonneg(a);
    let q = snormsq(a) as nat;
    lemma_sqrt_floor_bounds(q);
    let n = sqrt_floor(q) as int;
    assert(absi(a.0) <= n && absi(a.1) <= n && absi(a.2) <= n) by (nonlinear_arith)
        requires
            a.0 * a.0 + a.1 * a.1 + a.2 * a.2 == q,
            q < (n + 1) * (n + 1),
            n >= 0,
    ;
}

/// The exact squared-norm of a vector, in 128-bit arithmetic.
pub fn normsq128(v: Vec3) -> (q: u128)
    ensures
        q as int == snormsq(v@),
{
    proof {
        lemma_abs_mul_bound(v.x as int, v.x as int, 0x8000_0000_0000_0000, 0x8000_0000_0000_0000);
        lemma_abs_mul_bound(v.y as int, v.y as int, 0x8000_0000_0000_0000, 0x8000_0000_0000_0000);
        lemma_abs_mul_bound(v.z as int, v.z as int, 0x8000_0000_0000_0000, 0x8000_0000_0000_0000);
        lemma_normsq_nonneg(v@);
    }
    let xx = (v.x as i128) * (v.x as i128);
    let yy = (v.y as i128) * (v.y as i128);
    let zz = (v.z as i128) * (v.z as i128);
    (xx as u128) + (yy as u128) + (zz as u128)
}

/// Scale a vector to length `SCALE` (renormalize), truncating toward zero.
pub fn normalize3(v: Vec3) -> (r: Vec3)
    requires
        snormsq(v@) >= 1,
    ensures
        r@ == snormalize(v@),
        in_box(r@, SCALE as int),
{
    let q = normsq128(v);
    let n = isqrt(q);
    proof {
        lemma_sqrt_floor_at_least(q as nat, 1);
        lemma_component_le_root(v@);
        let ni = n as int;
        lemma_tdiv_abs(SCALE * v.x, ni);
        lemma_tdiv_abs(SCALE * v.y, ni);
        lemma_tdiv_abs(SCALE * v.z, ni);
        assert(absi(SCALE * v.x) <= SCALE * ni && absi(SCALE * v.y) <= SCALE * ni && absi(
            SCALE * v.z,
        ) <= SCALE * ni) by (nonlinear_arith)
            requires
                absi(v.x as int) <= ni,
                absi(v.y as int) <= ni,
                absi(v.z as int) <= ni,
                SCALE == 1_000_000,
        ;
        lemma_div_is_ordered(absi(SCALE * v.x), SCALE * ni, ni);
        lemma_div_is_ordered(absi(SCALE * v.y), SCALE * ni, ni);
        lemma_div_is_ordered(absi(SCALE * v.z), SCALE * ni, ni);
        lemma_div_by_multiple(SCALE as int, ni);
        lemma_abs_mul_bound(v.x as int, SCALE as int, 0x8000_0000_0000_0000, SCALE as int);
        lemma_abs_mul_bound(v.y as int, SCALE as int, 0x8000_0000_0000_0000, SCALE as int);
        lemma_abs_mul_bound(v.z as int, SCALE as int, 0x8000_0000_0000_0000, SCALE as int);
    }
    let rx = tdiv128((v.x as i128) * (SCALE as i128), n as i128);
    let ry = tdiv128((v.y as i128) * (SCALE as i128), n as i128);
    let rz = tdiv128((v.z as i128) * (SCALE as i128), n as i128);
    Vec3 { x: rx as i64, y: ry as i64, z: rz as i64 }
}

/// Exact cross product of two short vectors.
pub fn cross3(a: Vec3, b: Vec3) -> (r: Vec3)
    requires
        in_box(a@, 2 * SCALE as int),
        in_box(b@, 2 * SCALE as int),
    ensures
        r@ == scross(a@, b@),
        in_box(r@, 8_000_000_000_000),
{
    proof {
        let aa = a@;
        let bb = b@;
        assert(-4_000_000_000_000 <= aa.1 * bb.2 <= 4_000_000_000_000 && -4_000_000_000_000
            <= aa.2 * bb.1 <= 4_000_000_000_000 && -4_000_000_000_000 <= aa.2 * bb.0
            <= 4_000_000_000_000 && -4_000_000_000_000 <= aa.0 * bb.2 <= 4_000_000_000_000
            && -4_000_000_000_000 <= aa.0 * bb.1 <= 4_000_000_000_000 && -4_000_000_000_000
            <= aa.1 * bb.0 <= 4_000_000_000_000) by (nonlinear_arith)
            requires
                -2_000_000 <= aa.0 <= 2_000_000,
                -2_000_000 <= aa.1 <= 2_000_000,
                -2_000_000 <= aa.2 <= 2_000_000,
                -2_000_000 <= bb.0 <= 2_000_000,
                -2_000_000 <= bb.1 <= 2_000_000,
                -2_000_000 <= bb.2 <= 2_000_000,
        ;
    }
    let cx = (a.y as i128) * (b.z as i128) - (a.z as i128) * (b.y as i128);
    let cy = (a.z as i128) * (b.x as i128) - (a.x as i128) * (b.z as i128);
    let cz = (a.x as i128) * (b.y as i128) - (a.y as i128) * (b.x as i128);
    Vec3 { x: cx as i64, y: cy as i64, z: cz as i64 }
}

/// The cross product is orthogonal to both factors.
pub proof fn lemma_cross_orthogonal(a: V3, b: V3)
    ensures
        sdot(scross(a, b), a) == 0,
        sdot(scross(a, b), b) == 0,
{
    assert((a.1 * b.2 - a.2 * b.1) * a.0 + (a.2 * b.0 - a.0 * b.2) * a.1 + (a.0 * b.1 - a.1
        * b.0) * a.2 == 0) by (nonlinear_arith);
    assert((a.1 * b.2 - a.2 * b.1) * b.0 + (a.2 * b.0 - a.0 * b.2) * b.1 + (a.0 * b.1 - a.1
        * b.0) * b.2 == 0) by (nonlinear_arith);
}

/// Renormalizing keeps a vector orthogonal to any vector it was orthogonal
/// to, up to a small absolute error in the dot product.
pub proof fn lemma_normalize_orthogonal(v: V3, w: V3, wb: int)
    requires
        snormsq(v) >= 1,
        sdot(v, w) == 0,
        in_box(w, wb),
    ensures
        absi(sdot(snormalize(v), w)) <= 3 * wb,
{
    lemma_normsq_nonneg(v);
    let q = snormsq(v) as nat;
    lemma_sqrt_floor_at_least(q, 1);
    let n = sqrt_floor(q) as int;
    let r = snormalize(v);
    let e0 = SCALE * v.0 - n * r.0;
    let e1 = SCALE * v.1 - n * r.1;
    let e2 = SCALE * v.2 - n * r.2;
    lemma_tdiv_rem(SCALE * v.0, n);
    lemma_tdiv_rem(SCALE * v.1, n);
    lemma_tdiv_rem(SCALE * v.2, n);
    assert(n * (r.0 * w.0) == SCALE * (v.0 * w.0) - e0 * w.0) by (nonlinear_arith)
        requires
            n * r.0 == SCALE * v.0 - e0,
    ;
    assert(n * (r.1 * w.1) == SCALE * (v.1 * w.1) - e1 * w.1) by (nonlinear_arith)
        requires
            n * r.1 == SCALE * v.1 - e1,
    ;
    assert(n * (r.2 * w.2) == SCALE * (v.2 * w.2) - e2 * w.2) by (nonlinear_arith)
        requires
            n * r.2 == SCALE * v.2 - e2,
    ;
    assert(n * sdot(r, w) == n * (r.0 * w.0) + n * (r.1 * w.1) + n * (r.2 * w.2))
        by (nonlinear_arith)
        requires
            sdot(r, w) == r.0 * w.0 + r.1 * w.1 + r.2 * w.2,
    ;
    lemma_abs_mul_bound(e0, w.0, n, wb);
    lemma_abs_mul_bound(e1, w.1, n, wb);
    lemma_abs_mul_bound(e2, w.2, n, wb);
    assert(absi(n * sdot(r, w)) <= 3 * (n * wb));
    assert(absi(sdot(r, w)) <= 3 * wb) by (nonlinear_arith)
        requires
            n >= 1,
            absi(n * sdot(r, w)) <= 3 * (n * wb),
    ;
}

/// Renormalizing yields components no longer than `SCALE`.
pub proof fn lemma_normalize_in_box(v: V3)
    requires
        snormsq(v) >= 1,
    ensures
        in_box(snormalize(v), SCALE as int),
{
    lemma_normsq_nonneg(v);
    let q = snormsq(v) as nat;
    lemma_sqrt_floor_at_least(q, 1);
    lemma_component_le_root(v);
    let n = sqrt_floor(q) as int;
    lemma_tdiv_abs(SCALE * v.0, n);
    lemma_tdiv_abs(SCALE * v.1, n);
    lemma_tdiv_abs(SCALE * v.2, n);
    assert(absi(SCALE * v.0) <= SCALE * n && absi(SCALE * v.1) <= SCALE * n && absi(SCALE * v.2)
        <= SCALE * n) by (nonlinear_arith)
        requires
            absi(v.0) <= n,
            absi(v.1) <= n,
            absi(v.2) <= n,
            SCALE == 1_000_000,
    ;
    lemma_div_is_ordered(absi(SCALE * v.0), SCALE * n, n);
    lemma_div_is_ordered(absi(SCALE * v.1), SCALE * n, n);
    lemma_div_is_ordered(absi(SCALE * v.2), SCALE * n, n);
    lemma_div_by_multiple(SCALE as int, n);
}

/// Renormalizing a long-enough vector yields a squared norm within a
/// narrow band around `SCALE * SCALE`.
pub proof fn lemma_normalize_norm(v: V3)
    requires
        snormsq(v) >= 2_500_000_000,
    ensures
        999_993_000_000 <= snormsq(snormalize(v)) <= 1_000_047_000_000,
{
    assert(MIN_NORM * MIN_NORM == 2_500_000_000) by (nonlinear_arith)
        requires
            MIN_NORM == 50_000,
    ;
    lemma_normsq_nonneg(v);
    let qn = snormsq(v) as nat;
    let q = snormsq(v);
    assert((MIN_NORM as nat) * (MIN_NORM as nat) <= qn);
    lemma_sqrt_floor_at_least(qn, MIN_NORM as nat);
    lemma_sqrt_floor_bounds(qn);
    lemma_component_le_root(v);
    let n = sqrt_floor(qn) as int;
    let r = snormalize(v);
    let e0 = SCALE * v.0 - n * r.0;
    let e1 = SCALE * v.1 - n * r.1;
    let e2 = SCALE * v.2 - n * r.2;
    lemma_tdiv_rem(SCALE * v.0, n);
    lemma_tdiv_rem(SCALE * v.1, n);
    lemma_tdiv_rem(SCALE * v.2, n);
    let ee = e0 * v.0 + e1 * v.1 + e2 * v.2;
    let ff = e0 * e0 + e1 * e1 + e2 * e2;
    let p = snormsq(r);
    assert(n * n * (r.0 * r.0) == SCALE * SCALE * (v.0 * v.0) - 2 * SCALE * (e0 * v.0) + e0
        * e0) by (nonlinear_arith)
        requires
            n * r.0 == SCALE * v.0 - e0,
    ;
    assert(n * n * (r.1 * r.1) == SCALE * SCALE * (v.1 * v.1) - 2 * SCALE * (e1 * v.1) + e1
        * e1) by (nonlinear_arith)
        requires
            n * r.1 == SCALE * v.1 - e1,
    ;
    assert(n * n * (r.2 * r.2) == SCALE * SCALE * (v.2 * v.2) - 2 * SCALE * (e2 * v.2) + e2
        * e2) by (nonlinear_arith)
        requires
            n * r.2 == SCALE * v.2 - e2,
    ;
    assert(n * n * p == n * n * (r.0 * r.0) + n * n * (r.1 * r.1) + n * n * (r.2 * r.2))
        by (nonlinear_arith)
        requires
            p == r.0 * r.0 + r.1 * r.1 + r.2 * r.2,
    ;
    assert(n * n * p == SCALE * SCALE * q - 2 * SCALE * ee + ff) by (nonlinear_arith)
        requires
            n * n * p == n * n * (r.0 * r.0) + n * n * (r.1 * r.1) + n * n * (r.2 * r.2),
            n * n * (r.0 * r.0) == SCALE * SCALE * (v.0 * v.0) - 2 * SCALE * (e0 * v.0) + e0
                * e0,
            n * n * (r.1 * r.1) == SCALE * SCALE * (v.1 * v.1) - 2 * SCALE * (e1 * v.1) + e1
                * e1,
            n * n * (r.2 * r.2) == SCALE * SCALE * (v.2 * v.2) - 2 * SCALE * (e2 * v.2) + e2
                * e2,
            q == v.0 * v.0 + v.1 * v.1 + v.2 * v.2,
            ee == e0 * v.0 + e1 * v.1 + e2 * v.2,
            ff == e0 * e0 + e1 * e1 + e2 * e2,
    ;
    lemma_abs_mul_bound(e0, v.0, n, n);
    lemma_abs_mul_bound(e1, v.1, n, n);
    lemma_abs_mul_bound(e2, v.2, n, n);
    lemma_abs_mul_bound(e0, e0, n, n);
    lemma_abs_mul_bound(e1, e1, n, n);
    lemma_abs_mul_bound(e2, e2, n, n);
    assert(ee <= 3 * (n * n) && -(3 * (n * n)) <= ee);
    assert(ff >= 0) by (nonlinear_arith)
        requires
            ff == e0 * e0 + e1 * e1 + e2 * e2,
    ;
    assert(ff <= 3 * (n * n));
    // Lower bound: drop the error terms, then cancel the factor n * n.
    assert(n * n * p >= SCALE * SCALE * (n * n) - 6 * SCALE * (n * n)) by (nonlinear_arith)
        requires
            n * n * p == SCALE * SCALE * q - 2 * SCALE * ee + ff,
            q >= n * n,
            ee <= 3 * (n * n),
            ff >= 0,
            SCALE == 1_000_000,
    ;
    assert(p >= 999_993_000_000) by (nonlinear_arith)
        requires
            n >= 1,
            n * n * p >= SCALE * SCALE * (n * n) - 6 * SCALE * (n * n),
            SCALE == 1_000_000,
    ;
    // Upper bound: bound q by n * n + 2 * n, then cancel the factor n * n.
    assert(q <= n * n + 2 * n) by (nonlinear_arith)
        requires
            q < (n + 1) * (n + 1),
    ;
    assert(n * n * p <= SCALE * SCALE * (n * n) + 2 * (SCALE * SCALE) * n + 6 * SCALE * (n * n)
        + 3 * (n * n)) by (nonlinear_arith)
        requires
            n * n * p == SCALE * SCALE * q - 2 * SCALE * ee + ff,
            q <= n * n + 2 * n,
            -(3 * (n * n)) <= ee,
            ff <= 3 * (n * n),
            SCALE == 1_000_000,
    ;
    assert(p <= 1_000_047_000_000) by (nonlinear_arith)
        requires
            n >= MIN_NORM,
            MIN_NORM == 50_000,
            SCALE == 1_000_000,
            n * n * p <= SCALE * SCALE * (n * n) + 2 * (SCALE * SCALE) * n + 6 * SCALE * (n * n)
                + 3 * (n * n),
    ;
}

} // verus!
