//! Fixed-point scalar arithmetic.
//!
//! A scalar is an `i64` counting micro-units: `SCALE` raw units stand for
//! one simulation unit. Multiplication and division of scalars divide by
//! `SCALE` with truncation toward zero (`tdiv`), which is the exact
//! semantics every contract in this crate is stated over.

use vstd::prelude::*;

verus! {

use vstd::arithmetic::div_mod::{
    lemma_fundamental_div_mod, lemma_fundamental_div_mod_converse, lemma_mod_bound,
    lemma_div_pos_is_pos, lemma_div_nonincreasing,
};

/// Raw units per simulation unit.
pub const SCALE: i64 = 1_000_000;

/// Magnitude of an integer.
pub open spec fn absi(a: int) -> int {
    if a < 0 {
        -a
    } else {
        a
    }
}

/// Quotient of `a` by `b`, rounded toward zero (the semantics of machine
/// integer division), defined for `b != 0`.
pub open spec fn tdiv(a: int, b: int) -> int
    recommends
        b != 0,
{
    if (a < 0) != (b < 0) {
        -(absi(a) / absi(b))
    } else {
        absi(a) / absi(b)
    }
}

/// `x` clamped into the symmetric interval `[-m, m]`.
pub open spec fn clampi(x: int, m: int) -> int
    recommends
        m >= 0,
{
    if x < -m {
        -m
    } else if x > m {
        m
    } else {
        x
    }
}

/// Floor of the square root.
pub open spec fn sqrt_floor(v: nat) -> nat
    decreases v,
{
    if v == 0 {
        0
    } else {
        let s = sqrt_floor((v - 1) as nat);
        if (s + 1) * (s + 1) <= v {
            s + 1
        } else {
            s
        }
    }
}

pub proof fn lemma_sqrt_floor_bounds(v: nat)
    ensures
        sqrt_floor(v) * sqrt_floor(v) <= v,
        v < (sqrt_floor(v) + 1) * (sqrt_floor(v) + 1),
    decreases v,
{
    if v > 0 {
        lemma_sqrt_floor_bounds((v - 1) as nat);
        let s = sqrt_floor((v - 1) as nat);
        assert(s * s <= v - 1 && v - 1 < (s + 1) * (s + 1));
        if (s + 1) * (s + 1) <= v {
            assert(sqrt_floor(v) == s + 1);
            assert(v < (s + 1 + 1) * (s + 1 + 1)) by (nonlinear_arith)
                requires
                    v - 1 < (s + 1) * (s + 1),
                    s >= 0,
            ;
        } else {
            assert(sqrt_floor(v) == s);
            assert(s * s <= v);
        }
        assert(sqrt_floor(v) * sqrt_floor(v) <= v);
        assert(v < (sqrt_floor(v) + 1) * (sqrt_floor(v) + 1));
    } else {
        assert(sqrt_floor(v) * sqrt_floor(v) <= v) by (nonlinear_arith)
            requires
                v == 0,
                sqrt_floor(v) == 0,
        ;
        assert(v < (sqrt_floor(v) + 1) * (sqrt_floor(v) + 1)) by (nonlinear_arith)
            requires
                v == 0,
                sqrt_floor(v) == 0,
        ;
    }
}

pub proof fn lemma_sqrt_floor_unique(v: nat, r: nat)
    requires
        r * r <= v,
        v < (r + 1) * (r + 1),
    ensures
        r == sqrt_floor(v),
{
    let s = sqrt_floor(v);
    lemma_sqrt_floor_bounds(v);
    if r < s {
        assert(s * s >= (r + 1) * (r + 1)) by (nonlinear_arith)
            requires
                r + 1 <= s,
                r >= 0,
        ;
    }
    if s < r {
        assert(r * r >= (s + 1) * (s + 1)) by (nonlinear_arith)
            requires
                s + 1 <= r,
                s >= 0,
        ;
    }
}

/// The square root does not shrink when its argument grows.
pub proof fn lemma_sqrt_floor_at_least(v: nat, m: nat)
    requires
        m * m <= v,
    ensures
        sqrt_floor(v) >= m,
{
    lemma_sqrt_floor_bounds(v);
    let s = sqrt_floor(v);
    if s < m {
        assert(m * m >= (s + 1) * (s + 1)) by (nonlinear_arith)
            requires
                s + 1 <= m,
                s >= 0,
        ;
    }
}

/// `|a * b| <= aa * bb` whenever `|a| <= aa` and `|b| <= bb`.
pub proof fn lemma_abs_mul_bound(a: int, b: int, aa: int, bb: int)
    requires
        absi(a) <= aa,
        absi(b) <= bb,
    ensures
        absi(a * b) <= aa * bb,
{
    assert(absi(a * b) <= aa * bb) by (nonlinear_arith)
        requires
            absi(a) <= aa,
            absi(b) <= bb,
    ;
}

pub proof fn lemma_tdiv_zero(b: int)
    requires
        b >= 1,
    ensures
        tdiv(0, b) == 0,
{
    lemma_fundamental_div_mod_converse(0, b, 0, 0);
}

/// Magnitude of the truncating quotient is the quotient of the magnitudes.
pub proof fn lemma_tdiv_abs(a: int, b: int)
    requires
        b >= 1,
    ensures
        absi(tdiv(a, b)) == absi(a) / b,
        absi(tdiv(a, b)) <= absi(a),
        tdiv(-a, b) == -tdiv(a, b),
{
    lemma_div_pos_is_pos(absi(a), b);
    lemma_div_nonincreasing(absi(a), b);
}

/// The remainder that truncating division drops is smaller than the divisor.
pub proof fn lemma_tdiv_rem(a: int, b: int)
    requires
        b >= 1,
    ensures
        absi(a - b * tdiv(a, b)) < b,
{
    if a >= 0 {
        lemma_fundamental_div_mod(a, b);
        lemma_mod_bound(a, b);
        assert(tdiv(a, b) == a / b);
        assert(a - b * (a / b) == a % b);
    } else {
        lemma_fundamental_div_mod(-a, b);
        lemma_mod_bound(-a, b);
        assert(tdiv(a, b) == -((-a) / b));
        assert(-a == b * ((-a) / b) + ((-a) % b));
        assert(a - b * tdiv(a, b) == a + b * ((-a) / b)) by (nonlinear_arith)
            requires
                tdiv(a, b) == -((-a) / b),
        ;
        assert(a + b * ((-a) / b) == -((-a) % b));
    }
}

/// A common positive factor of dividend and divisor cancels.
pub proof fn lemma_tdiv_scale(a: int, b: int, c: int)
    requires
        b >= 1,
        c >= 1,
    ensures
        tdiv(c * a, c * b) == tdiv(a, b),
{
    let x = absi(a);
    let q = x / b;
    let r = x % b;
    lemma_fundamental_div_mod(x, b);
    lemma_mod_bound(x, b);
    lemma_div_pos_is_pos(x, b);
    assert(c * x == q * (c * b) + c * r) by (nonlinear_arith)
        requires
            x == b * q + r,
    ;
    assert(c * r < c * b) by (nonlinear_arith)
        requires
            r < b,
            c >= 1,
    ;
    assert(c * r >= 0) by (nonlinear_arith)
        requires
            r >= 0,
            c >= 1,
    ;
    lemma_fundamental_div_mod_converse(c * x, c * b, q, c * r);
    assert(absi(c * a) == c * absi(a)) by (nonlinear_arith)
        requires
            c >= 1,
    ;
    assert((c * a < 0) == (a < 0)) by (nonlinear_arith)
        requires
            c >= 1,
    ;
}

/// Truncating division of `a` by `b >= 1`, exact to `tdiv`.
pub fn tdiv128(a: i128, b: i128) -> (r: i128)
    requires
        b >= 1,
        a > i128::MIN,
    ensures
        r == tdiv(a as int, b as int),
        absi(r as int) <= absi(a as int),
{
    proof {
        lemma_tdiv_abs(a as int, b as int);
    }
    if a >= 0 {
        ((a as u128) / (b as u128)) as i128
    } else {
        let q = ((-a) as u128) / (b as u128);
        proof {
            lemma_div_nonincreasing((-a) as int, b as int);
        }
        -(q as i128)
    }
}

/// `x` clamped into `[-m, m]`.
pub fn clamp128(x: i128, m: i64) -> (r: i64)
    requires
        m >= 0,
    ensures
        r as int == clampi(x as int, m as int),
        -m <= r <= m,
{
    if x < -(m as i128) {
        -m
    } else if x > m as i128 {
        m
    } else {
        x as i64
    }
}

/// Floor of the square root, by bisection.
pub fn isqrt(v: u128) -> (r: u64)
    ensures
        r as nat == sqrt_floor(v as nat),
        (r as int) * (r as int) <= v as int,
        (v as int) < (r as int + 1) * (r as int + 1),
{
    let mut lo: u128 = 0;
    let mut hi: u128 = 0x1_0000_0000_0000_0000;
    proof {
        assert((hi as int) * (hi as int) > u128::MAX as int) by (nonlinear_arith)
            requires
                hi == 0x1_0000_0000_0000_0000,
        ;
    }
    while lo + 1 < hi
        invariant
            lo < hi,
            hi <= 0x1_0000_0000_0000_0000,
            (lo as int) * (lo as int) <= v as int,
            (v as int) < (hi as int) * (hi as int),
        decreases hi - lo,
    {
        let mid = lo + (hi - lo) / 2;
        assert((mid as int) * (mid as int) <= u128::MAX as int) by (nonlinear_arith)
            requires
                mid < 0x1_0000_0000_0000_0000,
        ;
        if mid * mid <= v {
            lo = mid;
        } else {
            hi = mid;
        }
    }
    proof {
        lemma_sqrt_floor_unique(v as nat, lo as nat);
    }
    lo as u64
}

} // verus!
