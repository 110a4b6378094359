//! Integer scalar arithmetic for the simulation: truncating division,
//! floor square roots and clamping, with exact specifications.
//!
//! All simulation quantities are integers in fixed sub-pixel units, so
//! every rounding step is stated explicitly in the contracts.

use vstd::prelude::*;
use vstd::arithmetic::div_mod::{
    lemma_div_multiples_vanish, lemma_div_nonincreasing, lemma_div_pos_is_pos,
};
use vstd::math::abs;

verus! {

/// Division rounding toward zero, the rounding of Rust's `/` on machine integers.
pub open spec fn trunc_div(a: int, b: int) -> int {
    if a >= 0 && b >= 0 {
        a / b
    } else if a < 0 && b < 0 {
        (-a) / (-b)
    } else if a < 0 {
        -((-a) / b)
    } else {
        -(a / (-b))
    }
}

/// `x` pulled into the interval `[lo, hi]`.
pub open spec fn clamp_s(x: int, lo: int, hi: int) -> int {
    if x < lo {
        lo
    } else if x > hi {
        hi
    } else {
        x
    }
}

/// `r` is the floor of the square root of `n`.
pub open spec fn is_sqrt(n: int, r: int) -> bool {
    0 <= r && r * r <= n && n < (r + 1) * (r + 1)
}

/// The floor of the square root of a nonnegative integer.
pub open spec fn sqrt_floor(n: int) -> int {
    choose|r: int| is_sqrt(n, r)
}

/// Truncating division never grows the magnitude of the dividend.
pub proof fn lemma_trunc_div_bound(a: int, b: int)
    requires
        b != 0,
    ensures
        abs(trunc_div(a, b)) <= abs(a),
        a >= 0 && b > 0 ==> 0 <= trunc_div(a, b),
{
    if a >= 0 && b >= 0 {
        lemma_div_nonincreasing(a, b);
        lemma_div_pos_is_pos(a, b);
    } else if a < 0 && b < 0 {
        lemma_div_nonincreasing(-a, -b);
        lemma_div_pos_is_pos(-a, -b);
    } else if a < 0 {
        lemma_div_nonincreasing(-a, b);
        lemma_div_pos_is_pos(-a, b);
    } else {
        lemma_div_nonincreasing(a, -b);
        lemma_div_pos_is_pos(a, -b);
    }
}

/// Dividing an exact multiple is exact, whatever the signs.
pub proof fn lemma_trunc_div_exact(x: int, d: int)
    requires
        d != 0,
    ensures
        trunc_div(x * d, d) == x,
{
    if d > 0 {
        lemma_div_multiples_vanish(x, d);
        assert(d * x == x * d) by (nonlinear_arith);
        if x < 0 {
            lemma_div_multiples_vanish(-x, d);
            assert(d * -x == -(x * d)) by (nonlinear_arith);
        }
    } else {
        lemma_div_multiples_vanish(x, -d);
        assert(-d * x == -(x * d)) by (nonlinear_arith);
        if x < 0 {
            lemma_div_multiples_vanish(-x, -d);
            assert(-d * -x == x * d) by (nonlinear_arith);
        }
    }
}

/// A bound on the dividend, as a multiple of the divisor, bounds the quotient.
pub proof fn lemma_trunc_div_quotient_bound(a: int, b: int, k: int)
    requires
        b > 0,
        0 <= k,
        abs(a) <= k * b,
    ensures
        abs(trunc_div(a, b)) <= k,
{
    lemma_div_multiples_vanish(k, b);
    if a >= 0 {
        vstd::arithmetic::div_mod::lemma_div_is_ordered(a, k * b, b);
        assert(b * k == k * b) by (nonlinear_arith);
        lemma_div_pos_is_pos(a, b);
    } else {
        vstd::arithmetic::div_mod::lemma_div_is_ordered(-a, k * b, b);
        assert(b * k == k * b) by (nonlinear_arith);
        lemma_div_pos_is_pos(-a, b);
    }
}

/// Halving by truncating division loses at most one unit.
pub proof fn lemma_trunc_div2(s: int)
    ensures
        s - 1 <= 2 * trunc_div(s, 2) <= s + 1,
{
    if s >= 0 {
        vstd::arithmetic::div_mod::lemma_fundamental_div_mod(s, 2);
        vstd::arithmetic::div_mod::lemma_mod_bound(s, 2);
    } else {
        vstd::arithmetic::div_mod::lemma_fundamental_div_mod(-s, 2);
        vstd::arithmetic::div_mod::lemma_mod_bound(-s, 2);
    }
}

/// A floor square root exists for every nonnegative integer.
pub proof fn lemma_sqrt_exists(n: nat)
    ensures
        exists|r: int| is_sqrt(n as int, r),
    decreases n,
{
    if n == 0 {
        assert(is_sqrt(0, 0));
    } else {
        lemma_sqrt_exists((n - 1) as nat);
        let r = choose|r: int| #[trigger] is_sqrt(n - 1, r);
        if n < (r + 1) * (r + 1) {
            assert(is_sqrt(n as int, r));
        } else {
            assert(n == (r + 1) * (r + 1));
            assert((r + 1) * (r + 1) < (r + 2) * (r + 2)) by (nonlinear_arith)
                requires r >= 0;
            assert(is_sqrt(n as int, r + 1));
        }
    }
}

/// The floor square root is unique, so `sqrt_floor` is it.
pub proof fn lemma_sqrt_is(n: int, r: int)
    requires
        is_sqrt(n, r),
    ensures
        sqrt_floor(n) == r,
{
    let w = sqrt_floor(n);
    assert(is_sqrt(n, w));
    assert(w == r) by (nonlinear_arith)
        requires is_sqrt(n, w) && is_sqrt(n, r);
}

/// `sqrt_floor` has the floor-square-root property on nonnegative inputs.
pub proof fn lemma_sqrt_props(n: int)
    requires
        n >= 0,
    ensures
        is_sqrt(n, sqrt_floor(n)),
{
    lemma_sqrt_exists(n as nat);
}

/// The square root of a perfect square.
pub proof fn lemma_sqrt_of_square(r: int)
    requires
        r >= 0,
    ensures
        sqrt_floor(r * r) == r,
{
    assert(r * r < (r + 1) * (r + 1)) by (nonlinear_arith)
        requires r >= 0;
    lemma_sqrt_is(r * r, r);
}

/// Magnitudes multiply through a product.
pub proof fn lemma_abs_mul(a: int, b: int, ba: int, bb: int)
    requires
        abs(a) <= ba,
        abs(b) <= bb,
    ensures
        abs(a * b) <= ba * bb,
{
    assert(abs(a * b) <= ba * bb) by (nonlinear_arith)
        requires abs(a) <= ba && abs(b) <= bb;
}

/// Truncating division of `i64` values, via `checked_div`.
pub fn div_i64(a: i64, b: i64) -> (r: i64)
    requires
        b != 0,
        a != i64::MIN,
    ensures
        r as int == trunc_div(a as int, b as int),
{
    proof {
        lemma_trunc_div_bound(a as int, b as int);
    }
    match a.checked_div(b) {
        Some(q) => q,
        None => {
            proof {
                assert(false);
            }
            0
        },
    }
}

/// Truncating division of `i128` values, via `checked_div`.
pub fn div_i128(a: i128, b: i128) -> (r: i128)
    requires
        b != 0,
        a != i128::MIN,
    ensures
        r as int == trunc_div(a as int, b as int),
{
    proof {
        lemma_trunc_div_bound(a as int, b as int);
    }
    match a.checked_div(b) {
        Some(q) => q,
        None => {
            proof {
                assert(false);
            }
            0
        },
    }
}

/// Widening product of two `i64` values; a 128-bit result never overflows.
pub fn mul_ww(a: i64, b: i64) -> (r: i128)
    ensures
        r as int == a * b,
{
    proof {
        lemma_abs_mul(a as int, b as int, 0x8000_0000_0000_0000, 0x8000_0000_0000_0000);
    }
    (a as i128) * (b as i128)
}

/// Product of two `i128` values known to fit.
pub fn mul_i128(a: i128, b: i128) -> (r: i128)
    requires
        abs(a * b) < 0x8000_0000_0000_0000_0000_0000_0000_0000,
    ensures
        r as int == a * b,
{
    a * b
}

/// Floor square root, by counting up.
pub fn isqrt(n: u128) -> (r: u128)
    requires
        n < 0x1_0000_0000_0000_0000,
    ensures
        r as int == sqrt_floor(n as int),
        is_sqrt(n as int, r as int),
{
    let mut r: u128 = 0;
    while (r + 1) * (r + 1) <= n
        invariant
            r * r <= n,
            n < 0x1_0000_0000_0000_0000,
            r < 0x1_0000_0000,
            (r + 1) * (r + 1) < 0x1_0000_0000_0000_0000_0000_0000_0000_0000,
        decreases n - r * r,
    {
        r = r + 1;
        assert(r < 0x1_0000_0000) by (nonlinear_arith)
            requires r * r <= n && n < 0x1_0000_0000_0000_0000 && r >= 1;
        assert((r + 1) * (r + 1) < 0x1_0000_0000_0000_0000_0000_0000_0000_0000)
            by (nonlinear_arith)
            requires r < 0x1_0000_0000;
        assert(r * r > (r - 1) * (r - 1)) by (nonlinear_arith)
            requires r >= 1;
    }
    proof {
        lemma_sqrt_is(n as int, r as int);
    }
    r
}

/// Clamp an `i64` into `[lo, hi]`.
pub fn clamp_i64(x: i64, lo: i64, hi: i64) -> (r: i64)
    requires
        lo <= hi,
    ensures
        r as int == clamp_s(x as int, lo as int, hi as int),
{
    if x < lo {
        lo
    } else if x > hi {
        hi
    } else {
        x
    }
}

/// Clamp a wide intermediate back into an `i64` interval.
pub fn clamp_i128(x: i128, lo: i64, hi: i64) -> (r: i64)
    requires
        lo <= hi,
    ensures
        r as int == clamp_s(x as int, lo as int, hi as int),
{
    if x < lo as i128 {
        lo
    } else if x > hi as i128 {
        hi
    } else {
        x as i64
    }
}

} // verus!
