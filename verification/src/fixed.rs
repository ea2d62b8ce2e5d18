//! Fixed-point scalar arithmetic.
//!
//! Every scalar of the library (coordinate, colour channel, ray parameter)
//! is an `i64` holding the value times [`SCALE`].  All operations round
//! toward zero and saturate at the `i64` range; each executable operation
//! is proved to return exactly what its spec-level mirror describes.

use vstd::prelude::*;

verus! {

/// Number of raw steps per whole unit: scalars carry six decimal places.
pub const SCALE: i64 = 1_000_000;

/// One half, as a fixed-point scalar.
pub const HALF: i64 = 500_000;

/// Truncating (round-toward-zero) division; the divisor must not be zero.
pub open spec fn div_trunc(a: int, b: int) -> int {
    let x = if b < 0 { -a } else { a };
    let d = if b < 0 { -b } else { b };
    if x >= 0 {
        x / d
    } else {
        -((-x) / d)
    }
}

/// Saturation of a mathematical integer to the `i64` range.
pub open spec fn clamp_fx(v: int) -> int {
    if v > i64::MAX {
        i64::MAX as int
    } else if v < i64::MIN {
        i64::MIN as int
    } else {
        v
    }
}

pub open spec fn fx_add_spec(a: int, b: int) -> int {
    clamp_fx(a + b)
}

pub open spec fn fx_sub_spec(a: int, b: int) -> int {
    clamp_fx(a - b)
}

pub open spec fn fx_mul_spec(a: int, b: int) -> int {
    clamp_fx(div_trunc(a * b, SCALE as int))
}

/// Division of two fixed-point scalars.  Dividing by zero yields zero, so
/// that the operation is total; callers that care guard the divisor.
pub open spec fn fx_div_spec(a: int, b: int) -> int {
    if b == 0 {
        0
    } else {
        clamp_fx(div_trunc(a * SCALE, b))
    }
}

/// Division of a fixed-point scalar by a plain integer count.
pub open spec fn fx_div_int_spec(a: int, n: int) -> int {
    if n == 0 {
        0
    } else {
        clamp_fx(div_trunc(a, n))
    }
}

/// Saturation of a scalar to the unit interval `[0, 1]`.
pub open spec fn clamp_unit_spec(v: int) -> int {
    if v < 0 {
        0
    } else if v > SCALE {
        SCALE as int
    } else {
        v
    }
}

/// The integer square root: the greatest `r` with `r * r <= n`.
pub open spec fn sqrt_floor(n: nat) -> nat {
    choose|r: nat| #[trigger] (r * r) <= n < (r + 1) * (r + 1)
}

/// Square root of a fixed-point scalar; negative inputs yield zero.
pub open spec fn fx_sqrt_spec(a: int) -> int {
    if a <= 0 {
        0
    } else {
        sqrt_floor((a * SCALE) as nat) as int
    }
}

proof fn lemma_sqrt_floor_exists(n: nat)
    ensures
        exists|r: nat| #[trigger] (r * r) <= n < (r + 1) * (r + 1),
    decreases n,
{
    if n == 0 {
        let z: nat = 0;
        assert(z * z <= n < (z + 1) * (z + 1)) by (nonlinear_arith)
            requires
                n == 0,
                z == 0,
        ;
    } else {
        lemma_sqrt_floor_exists((n - 1) as nat);
        let p = choose|r: nat| #[trigger] (r * r) <= n - 1 < (r + 1) * (r + 1);
        if (p + 1) * (p + 1) <= n {
            assert((p + 1) * (p + 1) <= n < (p + 2) * (p + 2)) by (nonlinear_arith)
                requires
                    p * p <= n - 1 < (p + 1) * (p + 1),
                    (p + 1) * (p + 1) <= n,
            ;
        } else {
            assert(p * p <= n < (p + 1) * (p + 1));
        }
    }
}

/// `sqrt_floor` is pinned down: any `r` with `r * r <= n < (r + 1)^2`
/// equals it.
pub proof fn lemma_sqrt_floor_is(n: nat, r: nat)
    requires
        r * r <= n < (r + 1) * (r + 1),
    ensures
        sqrt_floor(n) == r,
{
    lemma_sqrt_floor_exists(n);
    let s = sqrt_floor(n);
    assert(s * s <= n < (s + 1) * (s + 1));
    assert(s == r) by (nonlinear_arith)
        requires
            r * r <= n < (r + 1) * (r + 1),
            s * s <= n < (s + 1) * (s + 1),
    ;
}

/// The defining property of `sqrt_floor`, available without a witness.
pub proof fn lemma_sqrt_floor(n: nat)
    ensures
        sqrt_floor(n) * sqrt_floor(n) <= n,
        n < (sqrt_floor(n) + 1) * (sqrt_floor(n) + 1),
{
    lemma_sqrt_floor_exists(n);
    let s = sqrt_floor(n);
    assert(s * s <= n < (s + 1) * (s + 1));
}

/// The magnitude of a truncating quotient never exceeds the magnitude of
/// the dividend.
pub proof fn lemma_div_trunc_abs(a: int, b: int)
    requires
        b != 0,
    ensures
        div_trunc(a, b) <= (if a >= 0 { a } else { -a }),
        -(if a >= 0 { a } else { -a }) <= div_trunc(a, b),
{
    let x = if b < 0 { -a } else { a };
    let d = if b < 0 { -b } else { b };
    if x >= 0 {
        vstd::arithmetic::div_mod::lemma_div_pos_is_pos(x, d);
        vstd::arithmetic::div_mod::lemma_div_nonincreasing(x, d);
    } else {
        vstd::arithmetic::div_mod::lemma_div_pos_is_pos(-x, d);
        vstd::arithmetic::div_mod::lemma_div_nonincreasing(-x, d);
    }
}

fn clamp_i128(v: i128) -> (r: i64)
    ensures
        r as int == clamp_fx(v as int),
{
    if v > i64::MAX as i128 {
        i64::MAX
    } else if v < i64::MIN as i128 {
        i64::MIN
    } else {
        v as i64
    }
}

fn div_trunc_i128(a: i128, b: i128) -> (q: i128)
    requires
        b != 0,
        a != i128::MIN,
        b != i128::MIN,
    ensures
        q as int == div_trunc(a as int, b as int),
{
    let (x, d): (i128, i128) = if b < 0 {
        (-a, -b)
    } else {
        (a, b)
    };
    if x >= 0 {
        let q: u128 = (x as u128) / (d as u128);
        assert(q <= x as u128) by (nonlinear_arith)
            requires
                q == (x as u128) / (d as u128),
                d as u128 >= 1,
        ;
        q as i128
    } else {
        let nx: i128 = -x;
        let q: u128 = (nx as u128) / (d as u128);
        assert(q <= nx as u128) by (nonlinear_arith)
            requires
                q == (nx as u128) / (d as u128),
                d as u128 >= 1,
        ;
        -(q as i128)
    }
}

/// Saturating fixed-point addition.
pub fn fx_add(a: i64, b: i64) -> (r: i64)
    ensures
        r as int == fx_add_spec(a as int, b as int),
{
    clamp_i128(a as i128 + b as i128)
}

/// Saturating fixed-point subtraction.
pub fn fx_sub(a: i64, b: i64) -> (r: i64)
    ensures
        r as int == fx_sub_spec(a as int, b as int),
{
    clamp_i128(a as i128 - b as i128)
}

/// Saturating fixed-point multiplication, rounding toward zero.
pub fn fx_mul(a: i64, b: i64) -> (r: i64)
    ensures
        r as int == fx_mul_spec(a as int, b as int),
{
    proof {
        assert((i64::MIN as int) * (i64::MIN as int) < i128::MAX as int) by (nonlinear_arith);
        assert((i128::MIN as int) < -((i64::MIN as int) * (i64::MIN as int))) by (nonlinear_arith);
        assert(a as int * b as int <= i64::MIN as int * i64::MIN as int
            && -(i64::MIN as int * i64::MIN as int) <= a as int * b as int) by (nonlinear_arith)
            requires
                i64::MIN <= a <= i64::MAX,
                i64::MIN <= b <= i64::MAX,
        ;
    }
    let p: i128 = (a as i128) * (b as i128);
    clamp_i128(div_trunc_i128(p, SCALE as i128))
}

/// Saturating fixed-point division; dividing by zero yields zero.
pub fn fx_div(a: i64, b: i64) -> (r: i64)
    ensures
        r as int == fx_div_spec(a as int, b as int),
{
    if b == 0 {
        0
    } else {
        proof {
            assert(a as int * SCALE as int <= i64::MAX as int * SCALE as int
                && i64::MIN as int * SCALE as int <= a as int * SCALE as int) by (nonlinear_arith)
                requires
                    i64::MIN <= a <= i64::MAX,
            ;
        }
        let p: i128 = (a as i128) * (SCALE as i128);
        clamp_i128(div_trunc_i128(p, b as i128))
    }
}

/// Division of a fixed-point scalar by a plain count (not itself scaled).
pub fn fx_div_int(a: i64, n: i64) -> (r: i64)
    ensures
        r as int == fx_div_int_spec(a as int, n as int),
{
    if n == 0 {
        0
    } else {
        let q: i128 = div_trunc_i128(a as i128, n as i128);
        clamp_i128(q)
    }
}

fn isqrt_u128(n: u128) -> (r: u128)
    ensures
        r * r <= n < (r + 1) * (r + 1),
{
    let mut lo: u128 = 0;
    let mut hi: u128 = 1u128 << 64;
    assert((1u128 << 64) == 0x1_0000_0000_0000_0000u128) by (bit_vector);
    assert(n < hi as int * hi as int) by (nonlinear_arith)
        requires
            hi == 0x1_0000_0000_0000_0000u128,
    ;
    while hi - lo > 1
        invariant
            lo < hi,
            hi <= 0x1_0000_0000_0000_0000u128,
            lo as int * lo as int <= n as int,
            (n as int) < hi as int * hi as int,
        decreases hi - lo,
    {
        let mid: u128 = lo + (hi - lo) / 2;
        assert(mid as int * mid as int <= u128::MAX) by (nonlinear_arith)
            requires
                mid < 0x1_0000_0000_0000_0000u128,
        ;
        if mid * mid <= n {
            lo = mid;
        } else {
            hi = mid;
        }
    }
    lo
}

/// Saturating fixed-point square root; negative inputs yield zero.
pub fn fx_sqrt(a: i64) -> (r: i64)
    ensures
        r as int == fx_sqrt_spec(a as int),
{
    if a <= 0 {
        0
    } else {
        proof {
            assert(a as int * SCALE as int <= i64::MAX as int * SCALE as int) by (nonlinear_arith)
                requires
                    0 < a <= i64::MAX,
            ;
        }
        let n: u128 = (a as u128) * (SCALE as u128);
        let r: u128 = isqrt_u128(n);
        proof {
            lemma_sqrt_floor_is(n as nat, r as nat);
            assert(r < 0x4_0000_0000_0000u128) by (nonlinear_arith)
                requires
                    r as int * r as int <= n as int,
                    n as int <= i64::MAX as int * SCALE as int,
            ;
        }
        r as i64
    }
}

/// A nonnegative fixed-point product whose mathematical value is at most
/// `c` stays at most `c`.
pub proof fn lemma_mul_fits(a: int, b: int, c: int)
    requires
        0 <= a,
        0 <= b,
        a * b <= c * SCALE,
        0 <= c <= i64::MAX,
    ensures
        0 <= fx_mul_spec(a, b) <= c,
{
    vstd::arithmetic::div_mod::lemma_div_pos_is_pos(a * b, SCALE as int);
    vstd::arithmetic::div_mod::lemma_div_is_ordered(a * b, c * SCALE, SCALE as int);
    vstd::arithmetic::div_mod::lemma_div_by_multiple(c, SCALE as int);
}

/// Fixed-point products of unit-interval scalars stay in the unit interval.
pub proof fn lemma_mul_unit_interval(a: int, b: int)
    requires
        0 <= a <= SCALE,
        0 <= b <= SCALE,
    ensures
        0 <= fx_mul_spec(a, b) <= SCALE,
{
    assert(0 <= a * b <= SCALE as int * SCALE as int) by (nonlinear_arith)
        requires
            0 <= a <= SCALE,
            0 <= b <= SCALE,
    ;
    assert(0 <= div_trunc(a * b, SCALE as int) <= SCALE) by (nonlinear_arith)
        requires
            0 <= a * b <= SCALE as int * SCALE as int,
    ;
}

} // verus!
