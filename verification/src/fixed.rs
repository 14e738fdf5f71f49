//! Fixed-point arithmetic used throughout the crate.
//!
//! Every physical quantity is an `i64` counting micro-units: one unit of
//! the underlying quantity is `MICRO` micro-units.  The spec functions
//! here define the crate's rounding conventions — division rounded up,
//! division rounded to nearest (ties away from zero) — and each
//! executable helper is proved to compute its spec function exactly.

use vstd::prelude::*;

verus! {

/// Number of micro-units in one unit.
pub const MICRO: i64 = 1_000_000;

/// Magnitude of an integer.
pub open spec fn abs_int(v: int) -> int {
    if v < 0 {
        -v
    } else {
        v
    }
}

/// `n / d` rounded toward positive infinity, for `n >= 0`, `d >= 1`.
pub open spec fn ceil_div_int(n: int, d: int) -> int
    recommends
        0 <= n,
        1 <= d,
{
    (n + d - 1) / d
}

/// `p / d` rounded to the nearest integer, ties away from zero,
/// for `d >= 1`.
pub open spec fn round_div_int(p: int, d: int) -> int
    recommends
        1 <= d,
{
    if p >= 0 {
        (p + d / 2) / d
    } else {
        -((-p + d / 2) / d)
    }
}

/// `v` clamped into the interval `[lo, hi]`.
pub open spec fn clamp_int(v: int, lo: int, hi: int) -> int
    recommends
        lo <= hi,
{
    if v < lo {
        lo
    } else if v > hi {
        hi
    } else {
        v
    }
}

/// Magnitude of an `i64`.
pub fn abs_i64(v: i64) -> (r: i64)
    requires
        i64::MIN < v,
    ensures
        r == abs_int(v as int),
{
    if v < 0 {
        -v
    } else {
        v
    }
}

/// `v` clamped into `[lo, hi]`.
pub fn clamp_i64(v: i64, lo: i64, hi: i64) -> (r: i64)
    requires
        lo <= hi,
    ensures
        r == clamp_int(v as int, lo as int, hi as int),
{
    if v < lo {
        lo
    } else if v > hi {
        hi
    } else {
        v
    }
}

/// `n / d` rounded up.  The result is never larger than `n`.
pub fn ceil_div_i64(n: i64, d: i64) -> (r: i64)
    requires
        0 <= n,
        1 <= d,
    ensures
        r == ceil_div_int(n as int, d as int),
        0 <= r <= n,
        d * r >= n,
        d * (r - 1) < n,
        1 <= n ==> 1 <= r,
{
    let nu: u64 = n as u64;
    let du: u64 = d as u64;
    let sum: u64 = nu + (du - 1);
    let q: u64 = sum / du;
    proof {
        lemma_ceil_div_int_bounds(n as int, d as int);
    }
    q as i64
}

/// `p / d` rounded to the nearest integer, ties away from zero.
/// The result's magnitude never exceeds `p`'s.
pub fn round_div_i64(p: i64, d: i64) -> (r: i64)
    requires
        i64::MIN < p,
        1 <= d,
    ensures
        r == round_div_int(p as int, d as int),
        abs_int(r as int) <= abs_int(p as int),
{
    let du: u64 = d as u64;
    let half: u64 = du / 2;
    if p >= 0 {
        let q: u64 = (p as u64 + half) / du;
        proof {
            lemma_round_div_mag(p as int, d as int);
        }
        q as i64
    } else {
        let m: u64 = (-p) as u64;
        let q: u64 = (m + half) / du;
        proof {
            lemma_round_div_mag(-(p as int), d as int);
        }
        -(q as i64)
    }
}

/// Magnitude bounds for nearest-rounding division: the quotient's
/// magnitude never exceeds the dividend's, and scaling it back up by `d`
/// overshoots the dividend by at most half of `d`.
pub proof fn lemma_round_div_int_bounds(p: int, d: int)
    requires
        1 <= d,
    ensures
        abs_int(round_div_int(p, d)) <= abs_int(p),
        d * abs_int(round_div_int(p, d)) <= abs_int(p) + d / 2,
{
    if p >= 0 {
        lemma_round_div_mag(p, d);
        vstd::arithmetic::div_mod::lemma_fundamental_div_mod(p + d / 2, d);
    } else {
        lemma_round_div_mag(-p, d);
        vstd::arithmetic::div_mod::lemma_fundamental_div_mod(-p + d / 2, d);
    }
}

/// For nonnegative `p`, nearest-rounding of `p / d` stays within `[0, p]`.
proof fn lemma_round_div_mag(p: int, d: int)
    requires
        0 <= p,
        1 <= d,
    ensures
        0 <= (p + d / 2) / d <= p,
        d * ((p + d / 2) / d) <= p + d / 2,
{
    let q = (p + d / 2) / d;
    vstd::arithmetic::div_mod::lemma_fundamental_div_mod(p + d / 2, d);
    let m = (p + d / 2) % d;
    assert(d * q == p + d / 2 - m);
    assert(0 <= q) by (nonlinear_arith)
        requires
            1 <= d,
            d * q == p + d / 2 - m,
            0 <= m < d,
            0 <= p,
            0 <= d / 2 < d,
    ;
    assert(q <= p) by (nonlinear_arith)
        requires
            1 <= d,
            d * q == p + d / 2 - m,
            0 <= m < d,
            0 <= p,
            0 <= d / 2 < d,
            0 <= q,
    ;
}

/// Bounds of division rounded up: scaling the quotient back by `d`
/// reaches `n`, while one less step falls short.
pub proof fn lemma_ceil_div_int_bounds(n: int, d: int)
    requires
        0 <= n,
        1 <= d,
    ensures
        0 <= ceil_div_int(n, d) <= n,
        d * ceil_div_int(n, d) >= n,
        d * (ceil_div_int(n, d) - 1) < n,
        1 <= n ==> 1 <= ceil_div_int(n, d),
{
    let q = ceil_div_int(n, d);
    vstd::arithmetic::div_mod::lemma_fundamental_div_mod(n + d - 1, d);
    let m = (n + d - 1) % d;
    assert(d * q == n + d - 1 - m);
    assert(d * (q - 1) == d * q - d) by (nonlinear_arith);
    assert(0 <= q) by (nonlinear_arith)
        requires
            1 <= d,
            d * q >= n,
            0 <= n,
    ;
    assert(q <= n) by (nonlinear_arith)
        requires
            0 <= n,
            1 <= d,
            d * q <= n + d - 1,
            0 <= q,
    ;
    assert(1 <= n ==> 1 <= q) by (nonlinear_arith)
        requires
            1 <= d,
            d * q >= n,
            0 <= q,
    ;
}

/// Establishes the value of a division from its quotient and remainder
/// witnesses; handy for evaluating the crate's spec functions on
/// concrete values.
pub proof fn lemma_div_value(n: int, d: int, q: int, r: int)
    requires
        1 <= d,
        n == d * q + r,
        0 <= r < d,
    ensures
        n / d == q,
{
    assert(n == q * d + r) by (nonlinear_arith)
        requires
            n == d * q + r,
    ;
    vstd::arithmetic::div_mod::lemma_fundamental_div_mod_converse(n, d, q, r);
}

/// `a + b` clipped into the representable range of `i64`.
pub open spec fn sat_add_int(a: int, b: int) -> int {
    if a + b > i64::MAX as int {
        i64::MAX as int
    } else if a + b < i64::MIN as int {
        i64::MIN as int
    } else {
        a + b
    }
}

/// Saturating addition.
pub fn sat_add_i64(a: i64, b: i64) -> (r: i64)
    ensures
        r == sat_add_int(a as int, b as int),
{
    if b >= 0 {
        if a > i64::MAX - b {
            i64::MAX
        } else {
            a + b
        }
    } else {
        if a < i64::MIN - b {
            i64::MIN
        } else {
            a + b
        }
    }
}

/// `v * num / den` rounded to the nearest integer, ties away from zero.
pub fn mul_div_round_i64(v: i64, num: i64, den: i64) -> (r: i64)
    requires
        1 <= den,
        abs_int(v as int * num as int) <= i64::MAX as int,
    ensures
        r == round_div_int(v as int * num as int, den as int),
        abs_int(r as int) <= abs_int(v as int * num as int),
{
    let p: i64 = v * num;
    round_div_i64(p, den)
}

} // verus!
