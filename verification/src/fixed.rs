//! Saturating fixed-point arithmetic for the simulation core.
//!
//! Every physical quantity is an `i64` holding a multiple of one millionth of
//! a unit, so `SCALE` stands for 1.0.  All operations truncate toward zero and
//! saturate at `FP_MAX`, a symmetric bound; with a symmetric range every value
//! stays representable and negation is always exact, so no computation can
//! produce an undefined result.

use vstd::arithmetic::div_mod::{
    lemma_div_by_multiple, lemma_div_is_ordered, lemma_div_is_ordered_by_denominator,
    lemma_div_nonincreasing, lemma_fundamental_div_mod, lemma_mod_bound,
};
use vstd::prelude::*;

verus! {

/// The fixed-point representation of 1.0.
pub const SCALE: i64 = 1_000_000;

/// The fixed-point representation of 0.5.
pub const HALF: i64 = 500_000;

/// The fixed-point representation of 2.0.
pub const TWO: i64 = 2_000_000;

/// Symmetric saturation bound of every stored quantity.
pub const FP_MAX: i64 = 1_000_000_000_000_000_000;

/// A fixed-point value the arithmetic accepts and produces.
pub open spec fn in_range(v: int) -> bool {
    -(FP_MAX as int) <= v <= FP_MAX as int
}

/// Saturation into the representable range.
pub open spec fn clamp_fp(v: int) -> int {
    if v > FP_MAX as int {
        FP_MAX as int
    } else if v < -(FP_MAX as int) {
        -(FP_MAX as int)
    } else {
        v
    }
}

/// Division truncating toward zero, as the machine division does.
pub open spec fn div_tz(a: int, b: int) -> int
    recommends
        b > 0,
{
    if a >= 0 {
        a / b
    } else {
        -((-a) / b)
    }
}

/// Saturating fixed-point addition.
pub open spec fn add_fp(a: int, b: int) -> int {
    clamp_fp(a + b)
}

/// Saturating fixed-point subtraction.
pub open spec fn sub_fp(a: int, b: int) -> int {
    clamp_fp(a - b)
}

/// Saturating fixed-point multiplication, truncating toward zero.
pub open spec fn mul_fp(a: int, b: int) -> int {
    clamp_fp(div_tz(a * b, SCALE as int))
}

/// Saturating fixed-point division by a positive divisor, truncating toward zero.
pub open spec fn div_fp(a: int, b: int) -> int
    recommends
        b > 0,
{
    clamp_fp(div_tz(a * SCALE, b))
}

/// `r` is the integer square root of `n`, rounded down.
pub open spec fn is_sqrt_floor(n: int, r: int) -> bool {
    0 <= r && r * r <= n && n < (r + 1) * (r + 1)
}

/// The integer square root of a nonnegative value, rounded down.
pub open spec fn sqrt_floor(n: int) -> int
    recommends
        n >= 0,
{
    choose|r: int| is_sqrt_floor(n, r)
}

proof fn lemma_sqrt_floor_exists(n: int)
    requires
        n >= 0,
    ensures
        exists|r: int| is_sqrt_floor(n, r),
    decreases n,
{
    if n == 0 {
        assert(is_sqrt_floor(0, 0));
    } else {
        lemma_sqrt_floor_exists(n - 1);
        let r = choose|r: int| #[trigger] is_sqrt_floor(n - 1, r);
        if (r + 1) * (r + 1) <= n {
            assert(n <= (n - 1) + 1);
            assert(is_sqrt_floor(n, r + 1)) by (nonlinear_arith)
                requires
                    r >= 0 && (r + 1) * (r + 1) <= n && n - 1 < (r + 1) * (r + 1),
            ;
        } else {
            assert(is_sqrt_floor(n, r));
        }
    }
}

/// The integer square root is unique: any witness equals `sqrt_floor`.
pub proof fn lemma_sqrt_floor_agrees(n: int, r: int)
    requires
        is_sqrt_floor(n, r),
    ensures
        sqrt_floor(n) == r,
{
    lemma_sqrt_floor_exists(n);
    let c = sqrt_floor(n);
    assert(is_sqrt_floor(n, c));
    assert(c == r) by (nonlinear_arith)
        requires
            is_sqrt_floor(n, c) && is_sqrt_floor(n, r),
    ;
}

/// Saturation of an intermediate result back into an `i64`.
fn clamp128(v: i128) -> (r: i64)
    ensures
        r as int == clamp_fp(v as int),
        in_range(r as int),
{
    if v > FP_MAX as i128 {
        FP_MAX
    } else if v < -(FP_MAX as i128) {
        -FP_MAX
    } else {
        v as i64
    }
}

/// Truncating division of a wide intermediate by a positive divisor.
fn div_tz128(a: i128, b: i128) -> (q: i128)
    requires
        b > 0,
        a > i128::MIN,
    ensures
        q as int == div_tz(a as int, b as int),
{
    if a >= 0 {
        let mag: u128 = a as u128;
        let qm: u128 = mag / (b as u128);
        proof {
            lemma_div_nonincreasing(mag as int, b as int);
        }
        qm as i128
    } else {
        let mag: u128 = (-a) as u128;
        let qm: u128 = mag / (b as u128);
        proof {
            lemma_div_nonincreasing(mag as int, b as int);
        }
        -(qm as i128)
    }
}

/// Saturating fixed-point addition.
pub fn fp_add(a: i64, b: i64) -> (r: i64)
    requires
        in_range(a as int),
        in_range(b as int),
    ensures
        r as int == add_fp(a as int, b as int),
        in_range(r as int),
{
    clamp128(a as i128 + b as i128)
}

/// Saturating fixed-point subtraction.
pub fn fp_sub(a: i64, b: i64) -> (r: i64)
    requires
        in_range(a as int),
        in_range(b as int),
    ensures
        r as int == sub_fp(a as int, b as int),
        in_range(r as int),
{
    clamp128(a as i128 - b as i128)
}

/// Saturating fixed-point multiplication.
pub fn fp_mul(a: i64, b: i64) -> (r: i64)
    requires
        in_range(a as int),
        in_range(b as int),
    ensures
        r as int == mul_fp(a as int, b as int),
        in_range(r as int),
{
    proof {
        assert(-1_000_000_000_000_000_000_000_000_000_000_000_000 <= (a as int) * (b as int)
            <= 1_000_000_000_000_000_000_000_000_000_000_000_000) by (nonlinear_arith)
            requires
                -1_000_000_000_000_000_000 <= a as int <= 1_000_000_000_000_000_000,
                -1_000_000_000_000_000_000 <= b as int <= 1_000_000_000_000_000_000,
        ;
    }
    let p: i128 = (a as i128) * (b as i128);
    let q: i128 = div_tz128(p, SCALE as i128);
    clamp128(q)
}

/// Saturating fixed-point division by a positive divisor.
pub fn fp_div(a: i64, b: i64) -> (r: i64)
    requires
        in_range(a as int),
        0 < b,
    ensures
        r as int == div_fp(a as int, b as int),
        in_range(r as int),
{
    let p: i128 = (a as i128) * (SCALE as i128);
    let q: i128 = div_tz128(p, b as i128);
    clamp128(q)
}

/// Integer square root of a wide nonnegative intermediate, rounded down.
pub fn fp_sqrt(n: u128) -> (r: i64)
    requires
        n as int <= 4_000_000_000_000_000_000_000_000_000_000_000_000,
    ensures
        r as int == sqrt_floor(n as int),
        0 <= r,
{
    let mut lo: u128 = 0;
    let mut hi: u128 = 2 * (FP_MAX as u128) + 1;
    proof {
        assert(hi as int == 2_000_000_000_000_000_001);
        assert((hi as int) * (hi as int) > n as int) by (nonlinear_arith)
            requires
                hi as int == 2_000_000_000_000_000_001 && n as int
                    <= 4_000_000_000_000_000_000_000_000_000_000_000_000,
        ;
    }
    while lo + 1 < hi
        invariant
            lo < hi,
            hi <= 2 * (FP_MAX as u128) + 1,
            (lo as int) * (lo as int) <= n as int,
            (n as int) < (hi as int) * (hi as int),
        decreases hi - lo,
    {
        let mid: u128 = lo + (hi - lo) / 2;
        proof {
            assert(mid as int <= 2_000_000_000_000_000_001);
            assert((mid as int) * (mid as int) <= 0xffff_ffff_ffff_ffff_ffff_ffff_ffff_ffff) by (nonlinear_arith)
                requires
                    0 <= mid as int <= 2_000_000_000_000_000_001,
            ;
        }
        if mid * mid <= n {
            lo = mid;
        } else {
            hi = mid;
        }
    }
    proof {
        assert(is_sqrt_floor(n as int, lo as int));
        lemma_sqrt_floor_agrees(n as int, lo as int);
    }
    lo as i64
}

/// Saturation is odd: clamping commutes with negation.
pub proof fn lemma_clamp_odd(v: int)
    ensures
        clamp_fp(-v) == -clamp_fp(v),
{
}

/// Truncating division is odd in its dividend.
pub proof fn lemma_div_tz_odd(a: int, b: int)
    requires
        b > 0,
    ensures
        div_tz(-a, b) == -div_tz(a, b),
{
}

/// Multiplication is odd in its left argument.
pub proof fn lemma_mul_fp_odd_left(a: int, b: int)
    ensures
        mul_fp(-a, b) == -mul_fp(a, b),
{
    assert((-a) * b == -(a * b)) by (nonlinear_arith);
    lemma_div_tz_odd(a * b, SCALE as int);
    lemma_clamp_odd(div_tz(a * b, SCALE as int));
}

/// Multiplication is odd in its right argument.
pub proof fn lemma_mul_fp_odd_right(a: int, b: int)
    ensures
        mul_fp(a, -b) == -mul_fp(a, b),
{
    assert(a * (-b) == -(a * b)) by (nonlinear_arith);
    lemma_div_tz_odd(a * b, SCALE as int);
    lemma_clamp_odd(div_tz(a * b, SCALE as int));
}

/// Addition is odd when both arguments are negated.
pub proof fn lemma_add_fp_odd(a: int, b: int)
    ensures
        add_fp(-a, -b) == -add_fp(a, b),
{
    lemma_clamp_odd(a + b);
}

/// Multiplying by zero gives zero.
pub proof fn lemma_mul_fp_zero(a: int)
    ensures
        mul_fp(a, 0) == 0,
        mul_fp(0, a) == 0,
{
    assert(a * 0 == 0) by (nonlinear_arith);
    assert(0 * a == 0) by (nonlinear_arith);
}

/// Adding zero to an in-range value gives it back.
pub proof fn lemma_add_fp_zero(a: int)
    requires
        in_range(a),
    ensures
        add_fp(a, 0) == a,
        add_fp(0, a) == a,
{
}

/// Multiplication keeps the sign of its left argument under a nonnegative right argument.
pub proof fn lemma_mul_fp_sign(a: int, b: int)
    requires
        b >= 0,
    ensures
        a >= 0 ==> mul_fp(a, b) >= 0,
        a <= 0 ==> mul_fp(a, b) <= 0,
{
    if a >= 0 {
        assert(a * b >= 0) by (nonlinear_arith)
            requires
                a >= 0 && b >= 0,
        ;
        lemma_div_is_ordered(0, a * b, SCALE as int);
    } else {
        assert(a * b <= 0) by (nonlinear_arith)
            requires
                a <= 0 && b >= 0,
        ;
        lemma_div_is_ordered(0, -(a * b), SCALE as int);
        lemma_div_tz_odd(a * b, SCALE as int);
    }
}

/// Division of a nonnegative value by a positive divisor is nonnegative.
pub proof fn lemma_div_fp_nonneg(a: int, b: int)
    requires
        a >= 0,
        b > 0,
    ensures
        div_fp(a, b) >= 0,
{
    assert(a * SCALE >= 0) by (nonlinear_arith)
        requires
            a >= 0,
    ;
    lemma_div_is_ordered(0, a * SCALE, b);
}

/// Multiplying by 1.0 gives an in-range value back exactly.
pub proof fn lemma_mul_fp_identity(a: int)
    requires
        in_range(a),
    ensures
        mul_fp(a, SCALE as int) == a,
        mul_fp(SCALE as int, a) == a,
{
    if a >= 0 {
        lemma_div_by_multiple(a, SCALE as int);
    } else {
        lemma_div_by_multiple(-a, SCALE as int);
        assert(-(a * SCALE) == (-a) * SCALE) by (nonlinear_arith);
        lemma_div_tz_odd(a * SCALE, SCALE as int);
    }
    assert(SCALE * a == a * SCALE) by (nonlinear_arith);
}

/// Multiplying by 2.0 doubles exactly while the double is in range.
pub proof fn lemma_mul_fp_double(a: int)
    requires
        in_range(2 * a),
    ensures
        mul_fp(TWO as int, a) == 2 * a,
        mul_fp(a, TWO as int) == 2 * a,
{
    assert(TWO * a == (2 * a) * SCALE) by (nonlinear_arith)
        requires
            TWO == 2_000_000 && SCALE == 1_000_000,
    ;
    assert(a * TWO == TWO * a) by (nonlinear_arith);
    if a >= 0 {
        lemma_div_by_multiple(2 * a, SCALE as int);
    } else {
        assert(-((2 * a) * SCALE) == (2 * (-a)) * SCALE) by (nonlinear_arith);
        lemma_div_by_multiple(2 * (-a), SCALE as int);
        lemma_div_tz_odd((2 * a) * SCALE, SCALE as int);
    }
}

/// Dividing a positive value by itself gives exactly 1.0.
pub proof fn lemma_div_fp_self(a: int)
    requires
        0 < a,
    ensures
        div_fp(a, a) == SCALE as int,
{
    assert(a * SCALE == SCALE * a) by (nonlinear_arith);
    lemma_div_by_multiple(SCALE as int, a);
}

/// Halving an even nonnegative in-range value is exact.
pub proof fn lemma_mul_fp_half_even(a: int)
    requires
        0 <= a,
        in_range(a),
        a % 2 == 0,
    ensures
        mul_fp(a, HALF as int) == a / 2,
{
    lemma_fundamental_div_mod(a, 2);
    let h = a / 2;
    assert(a * HALF == h * SCALE) by (nonlinear_arith)
        requires
            a == 2 * h && HALF == 500_000 && SCALE == 1_000_000,
    ;
    lemma_div_by_multiple(h, SCALE as int);
}

/// The square root function satisfies its own characterization.
pub proof fn lemma_sqrt_floor_is_sqrt(n: int)
    requires
        n >= 0,
    ensures
        is_sqrt_floor(n, sqrt_floor(n)),
{
    lemma_sqrt_floor_exists(n);
}

/// Dividing a value by a divisor at least as large in magnitude gives a
/// result bounded by one unit.
pub proof fn lemma_div_fp_unit_bound(a: int, b: int)
    requires
        -b <= a <= b,
        0 < b,
    ensures
        -(SCALE as int) <= div_fp(a, b) <= SCALE as int,
{
    assert(b * SCALE == SCALE * b) by (nonlinear_arith);
    lemma_div_by_multiple(SCALE as int, b);
    if a >= 0 {
        assert(a * SCALE <= b * SCALE) by (nonlinear_arith)
            requires
                a <= b && 0 < SCALE,
        ;
        assert(0 <= a * SCALE) by (nonlinear_arith)
            requires
                0 <= a && 0 < SCALE,
        ;
        lemma_div_is_ordered(0, a * SCALE, b);
        lemma_div_is_ordered(a * SCALE, b * SCALE, b);
        assert(0 * b == 0) by (nonlinear_arith);
        lemma_div_by_multiple(0, b);
    } else {
        assert(-(a * SCALE) == (-a) * SCALE) by (nonlinear_arith);
        assert((-a) * SCALE <= b * SCALE) by (nonlinear_arith)
            requires
                -a <= b && 0 < SCALE,
        ;
        assert(0 <= (-a) * SCALE) by (nonlinear_arith)
            requires
                0 <= -a && 0 < SCALE,
        ;
        lemma_div_is_ordered(0, (-a) * SCALE, b);
        lemma_div_is_ordered((-a) * SCALE, b * SCALE, b);
        assert(0 * b == 0) by (nonlinear_arith);
        lemma_div_by_multiple(0, b);
        lemma_div_tz_odd(a * SCALE, b);
    }
}

/// The mass-weighted contribution `m * mul_fp(u, div_fp(f, m))` tracks the
/// ideal product `u * f` to within two steps of `m`, for a direction
/// component `u` bounded by one unit: both truncations together lose less
/// than one part in `SCALE` of `u` and of `m` each.
pub proof fn lemma_weighted_quotient_bound(u: int, f: int, m: int)
    requires
        -(SCALE as int) <= u <= SCALE as int,
        0 <= f <= FP_MAX as int,
        SCALE as int <= m <= FP_MAX as int,
    ensures
        -(2 * m) < u * f - m * mul_fp(u, div_fp(f, m)),
        u * f - m * mul_fp(u, div_fp(f, m)) < 2 * m,
{
    if u >= 0 {
        lemma_weighted_quotient_bound_nonneg(u, f, m);
    } else {
        lemma_weighted_quotient_bound_nonneg(-u, f, m);
        lemma_mul_fp_odd_left(-u, div_fp(f, m));
        assert((-u) * f == -(u * f)) by (nonlinear_arith);
        assert(m * (-mul_fp(-u, div_fp(f, m))) == -(m * mul_fp(-u, div_fp(f, m)))) by (nonlinear_arith);
    }
}

proof fn lemma_weighted_quotient_bound_nonneg(u: int, f: int, m: int)
    requires
        0 <= u <= SCALE as int,
        0 <= f <= FP_MAX as int,
        SCALE as int <= m <= FP_MAX as int,
    ensures
        0 <= u * f - m * mul_fp(u, div_fp(f, m)),
        u * f - m * mul_fp(u, div_fp(f, m)) < 2 * m,
{
    let s = SCALE as int;
    assert(0 <= f * s) by (nonlinear_arith)
        requires
            0 <= f && 0 < s,
    ;
    let q = (f * s) / m;
    lemma_div_is_ordered(0, f * s, m);
    assert(0 * m == 0) by (nonlinear_arith);
    lemma_div_by_multiple(0, m);
    lemma_div_is_ordered_by_denominator(f * s, s, m);
    lemma_div_by_multiple(f, s);
    assert(0 <= q <= f);
    assert(div_fp(f, m) == q);
    assert(0 <= u * q) by (nonlinear_arith)
        requires
            0 <= u && 0 <= q,
    ;
    let g = (u * q) / s;
    assert(u * q <= q * s) by (nonlinear_arith)
        requires
            u <= s && 0 <= q,
    ;
    lemma_div_is_ordered(0, u * q, s);
    lemma_div_by_multiple(0, s);
    lemma_div_is_ordered(u * q, q * s, s);
    lemma_div_by_multiple(q, s);
    assert(0 <= g <= q);
    assert(mul_fp(u, q) == g);
    lemma_fundamental_div_mod(f * s, m);
    lemma_mod_bound(f * s, m);
    let r1 = (f * s) % m;
    lemma_fundamental_div_mod(u * q, s);
    lemma_mod_bound(u * q, s);
    let r2 = (u * q) % s;
    assert(s * (u * f - m * g) == u * r1 + m * r2) by (nonlinear_arith)
        requires
            f * s == m * q + r1 && u * q == s * g + r2,
    ;
    assert(0 <= u * r1) by (nonlinear_arith)
        requires
            0 <= u && 0 <= r1,
    ;
    assert(u * r1 <= s * r1) by (nonlinear_arith)
        requires
            u <= s && 0 <= r1,
    ;
    assert(m * r2 < m * s) by (nonlinear_arith)
        requires
            r2 < s && 0 < m,
    ;
    assert(s * r1 < s * m) by (nonlinear_arith)
        requires
            r1 < m && 0 < s,
    ;
    assert(s * (u * f - m * g) < 2 * (s * m));
}

/// Multiplication of two values at least 1.0 is at least either factor.
pub proof fn lemma_mul_fp_at_least(a: int, b: int)
    requires
        SCALE as int <= a <= FP_MAX as int,
        SCALE as int <= b <= FP_MAX as int,
    ensures
        mul_fp(a, b) >= b,
        mul_fp(a, b) >= SCALE as int,
        mul_fp(a, b) <= FP_MAX as int,
{
    assert(a * b >= SCALE * b) by (nonlinear_arith)
        requires
            a >= SCALE as int && b >= 0,
    ;
    lemma_div_is_ordered((SCALE as int) * b, a * b, SCALE as int);
    assert((SCALE as int) * b / (SCALE as int) == b) by (nonlinear_arith)
        requires
            b >= 0,
    ;
}

} // verus!
