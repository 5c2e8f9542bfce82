//! Decimal fixed-point scalars: the numeric ground that the model, the loss
//! and the optimizer are built on. A raw value `x: i64` stands for the
//! rational `x / SCALE`. Multiplication, division and square root truncate
//! toward zero, and every result is saturated to the `i64` range — the
//! fixed-point analogue of a floating-point backend overflowing to infinity.

use vstd::prelude::*;

verus! {

/// Raw units per 1.0.
pub const SCALE: i64 = 1_000_000;

/// Absolute value of a mathematical integer.
pub open spec fn abs_val(a: int) -> int {
    if a >= 0 {
        a
    } else {
        -a
    }
}

/// Saturation to the `i64` range.
pub open spec fn sat64(v: int) -> int {
    if v > i64::MAX {
        i64::MAX as int
    } else if v < i64::MIN {
        i64::MIN as int
    } else {
        v
    }
}

/// Division truncating toward zero, the rounding that all executable
/// fixed-point operations use.
pub open spec fn tdiv(a: int, b: int) -> int
    recommends
        b != 0,
{
    if (a >= 0) == (b >= 0) {
        abs_val(a) / abs_val(b)
    } else {
        -(abs_val(a) / abs_val(b))
    }
}

/// Fixed-point product: a*b/SCALE, truncated, saturated.
pub open spec fn mul_val(a: int, b: int) -> int {
    sat64(tdiv(a * b, SCALE as int))
}

/// Fixed-point sum, saturated.
pub open spec fn add_val(a: int, b: int) -> int {
    sat64(a + b)
}

/// Fixed-point difference, saturated.
pub open spec fn sub_val(a: int, b: int) -> int {
    sat64(a - b)
}

/// Fixed-point quotient: a*SCALE/b, truncated, saturated.
pub open spec fn div_val(a: int, b: int) -> int
    recommends
        b != 0,
{
    sat64(tdiv(a * (SCALE as int), b))
}

/// Integer square root, defined by recursion so that it is a total spec
/// function; `lemma_isqrt_spec_bounds` gives its characteristic property.
pub open spec fn isqrt_spec(n: nat) -> nat
    decreases n,
{
    if n == 0 {
        0
    } else {
        let p = isqrt_spec((n - 1) as nat);
        if (p + 1) * (p + 1) <= n {
            p + 1
        } else {
            p
        }
    }
}

/// Fixed-point square root of a non-negative value: isqrt(a*SCALE).
pub open spec fn sqrt_val(a: int) -> int
    recommends
        a >= 0,
{
    isqrt_spec((a * (SCALE as int)) as nat) as int
}

pub proof fn lemma_isqrt_spec_bounds(n: nat)
    ensures
        isqrt_spec(n) * isqrt_spec(n) <= n,
        n < (isqrt_spec(n) + 1) * (isqrt_spec(n) + 1),
    decreases n,
{
    if n == 0 {
        assert(isqrt_spec(0) == 0);
        assert(n < (isqrt_spec(n) + 1) * (isqrt_spec(n) + 1)) by (nonlinear_arith)
            requires
                n == 0,
                isqrt_spec(n) == 0,
        ;
    } else {
        let p = isqrt_spec((n - 1) as nat);
        lemma_isqrt_spec_bounds((n - 1) as nat);
        if (p + 1) * (p + 1) <= n {
            assert(isqrt_spec(n) == p + 1);
            assert(n < (p + 2) * (p + 2)) by (nonlinear_arith)
                requires
                    n <= (n - 1) + 1,
                    (n - 1) < (p + 1) * (p + 1),
                    p >= 0,
            ;
            assert(n < (isqrt_spec(n) + 1) * (isqrt_spec(n) + 1));
        } else {
            assert(isqrt_spec(n) == p);
            assert(p * p <= n);
        }
    }
}

pub proof fn lemma_isqrt_unique(n: nat, r: nat)
    requires
        r * r <= n,
        n < (r + 1) * (r + 1),
    ensures
        r == isqrt_spec(n),
{
    let q = isqrt_spec(n);
    lemma_isqrt_spec_bounds(n);
    if r < q {
        assert((r + 1) * (r + 1) <= q * q) by (nonlinear_arith)
            requires
                r + 1 <= q,
        ;
    }
    if q < r {
        assert((q + 1) * (q + 1) <= r * r) by (nonlinear_arith)
            requires
                q + 1 <= r,
        ;
    }
}

/// Saturating narrowing of a wide intermediate to `i64`.
pub(crate) fn sat_to_i64(v: i128) -> (r: i64)
    ensures
        r as int == sat64(v as int),
{
    if v > i64::MAX as i128 {
        i64::MAX
    } else if v < i64::MIN as i128 {
        i64::MIN
    } else {
        v as i64
    }
}

/// Truncating division on wide intermediates, computed over unsigned
/// magnitudes so that its value is pinned exactly by `tdiv`.
pub(crate) fn tdiv_i128(a: i128, b: i128) -> (r: i128)
    requires
        b != 0,
        a != i128::MIN,
        b != i128::MIN,
    ensures
        r as int == tdiv(a as int, b as int),
{
    let neg: bool = (a < 0) != (b < 0);
    let ma: u128 = if a < 0 {
        (-a) as u128
    } else {
        a as u128
    };
    let mb: u128 = if b < 0 {
        (-b) as u128
    } else {
        b as u128
    };
    let q: u128 = ma / mb;
    proof {
        assert(ma as int == abs_val(a as int));
        assert(mb as int == abs_val(b as int));
        assert(q as int == abs_val(a as int) / abs_val(b as int));
        vstd::arithmetic::div_mod::lemma_div_is_ordered_by_denominator(ma as int, 1, mb as int);
        vstd::arithmetic::div_mod::lemma_div_by_self(1);
        assert(q <= ma);
    }
    if neg {
        -(q as i128)
    } else {
        q as i128
    }
}

/// Fixed-point multiplication: `a*b/SCALE`, truncated toward zero,
/// saturated to the `i64` range.
pub fn fx_mul(a: i64, b: i64) -> (r: i64)
    ensures
        r as int == mul_val(a as int, b as int),
{
    proof {
        assert((a as int) * (b as int) <= 0x4000_0000_0000_0000_0000_0000_0000_0000
            && (a as int) * (b as int) >= -0x4000_0000_0000_0000_0000_0000_0000_0000)
            by (nonlinear_arith)
            requires
                i64::MIN <= a <= i64::MAX,
                i64::MIN <= b <= i64::MAX,
        ;
    }
    let p: i128 = (a as i128) * (b as i128);
    sat_to_i64(tdiv_i128(p, SCALE as i128))
}

/// Fixed-point addition, saturated to the `i64` range.
pub fn fx_add(a: i64, b: i64) -> (r: i64)
    ensures
        r as int == add_val(a as int, b as int),
{
    let s: i128 = (a as i128) + (b as i128);
    sat_to_i64(s)
}

/// Fixed-point subtraction, saturated to the `i64` range.
pub fn fx_sub(a: i64, b: i64) -> (r: i64)
    ensures
        r as int == sub_val(a as int, b as int),
{
    let s: i128 = (a as i128) - (b as i128);
    sat_to_i64(s)
}

/// Fixed-point division: `a*SCALE/b`, truncated toward zero, saturated.
pub fn fx_div(a: i64, b: i64) -> (r: i64)
    requires
        b != 0,
    ensures
        r as int == div_val(a as int, b as int),
{
    proof {
        assert((a as int) * (SCALE as int) <= 0x4000_0000_0000_0000_0000_0000_0000_0000
            && (a as int) * (SCALE as int) >= -0x4000_0000_0000_0000_0000_0000_0000_0000)
            by (nonlinear_arith)
            requires
                i64::MIN <= a <= i64::MAX,
        ;
    }
    let p: i128 = (a as i128) * (SCALE as i128);
    sat_to_i64(tdiv_i128(p, b as i128))
}

/// Integer square root on the wide intermediate, by binary search.
fn isqrt_u128(n: u128) -> (r: u128)
    ensures
        (r as int) * (r as int) <= n as int,
        (n as int) < (r as int + 1) * (r as int + 1),
{
    if n == 0 {
        return 0;
    }
    let mut lo: u128 = 0;
    let mut hi: u128 = 0x1_0000_0000_0000_0000;
    proof {
        assert((hi as int) * (hi as int) > n as int) by (nonlinear_arith)
            requires
                hi == 0x1_0000_0000_0000_0000,
                n <= u128::MAX,
        ;
    }
    while lo + 1 < hi
        invariant
            lo < hi,
            hi <= 0x1_0000_0000_0000_0000,
            (lo as int) * (lo as int) <= n as int,
            (n as int) < (hi as int) * (hi as int),
        decreases hi - lo,
    {
        let mid: u128 = lo + (hi - lo) / 2;
        proof {
            assert((mid as int) * (mid as int) < 0x1_0000_0000_0000_0000_0000_0000_0000_0000)
                by (nonlinear_arith)
                requires
                    mid < 0x1_0000_0000_0000_0000,
            ;
        }
        if mid * mid <= n {
            lo = mid;
        } else {
            hi = mid;
        }
    }
    lo
}

/// Fixed-point square root of a non-negative value.
pub fn fx_sqrt(a: i64) -> (r: i64)
    requires
        a >= 0,
    ensures
        r as int == sqrt_val(a as int),
        r >= 0,
{
    proof {
        assert((a as int) * (SCALE as int) < 0x8_0000_0000_0000_0000_0000
            && (a as int) * (SCALE as int) >= 0) by (nonlinear_arith)
            requires
                0 <= a <= i64::MAX,
        ;
    }
    let n: u128 = (a as u128) * (SCALE as u128);
    let s: u128 = isqrt_u128(n);
    proof {
        lemma_isqrt_unique(n as nat, s as nat);
        assert(s < 0x1_0000_0000_0000) by (nonlinear_arith)
            requires
                (s as int) * (s as int) <= n as int,
                (n as int) < 0x8_0000_0000_0000_0000_0000,
        ;
    }
    s as i64
}

/// A truncating quotient of a non-negative value by a positive one is
/// non-negative, and equals the euclidean quotient.
pub proof fn lemma_tdiv_nonneg(a: int, b: int)
    requires
        a >= 0,
        b > 0,
    ensures
        tdiv(a, b) == a / b,
        tdiv(a, b) >= 0,
{
    vstd::arithmetic::div_mod::lemma_div_pos_is_pos(a, b);
}

/// The product of non-negative fixed-point values is non-negative.
pub proof fn lemma_mul_val_nonneg(a: int, b: int)
    requires
        a >= 0,
        b >= 0,
    ensures
        mul_val(a, b) >= 0,
{
    assert(a * b >= 0) by (nonlinear_arith)
        requires
            a >= 0,
            b >= 0,
    ;
    lemma_tdiv_nonneg(a * b, SCALE as int);
}

/// A fixed-point square is non-negative whatever the sign of its argument.
pub proof fn lemma_mul_val_sq_nonneg(g: int)
    ensures
        mul_val(g, g) >= 0,
{
    assert(g * g >= 0) by (nonlinear_arith);
    lemma_tdiv_nonneg(g * g, SCALE as int);
}

/// A fixed-point quotient of a non-negative value by a positive one is
/// non-negative.
pub proof fn lemma_div_val_nonneg(a: int, b: int)
    requires
        a >= 0,
        b > 0,
    ensures
        div_val(a, b) >= 0,
{
    assert(a * (SCALE as int) >= 0) by (nonlinear_arith)
        requires
            a >= 0,
    ;
    lemma_tdiv_nonneg(a * (SCALE as int), b);
}

/// Multiplying a value of [0, SCALE] by a non-negative factor below SCALE
/// keeps the product within [0, factor]: the decay powers of the optimizer
/// stay in range.
pub proof fn lemma_mul_val_decay(p: int, beta: int)
    requires
        0 <= p <= SCALE,
        0 <= beta < SCALE,
    ensures
        0 <= mul_val(p, beta) <= beta,
{
    assert(0 <= p * beta <= (SCALE as int) * beta) by (nonlinear_arith)
        requires
            0 <= p <= SCALE,
            0 <= beta,
    ;
    lemma_tdiv_nonneg(p * beta, SCALE as int);
    vstd::arithmetic::div_mod::lemma_div_is_ordered(p * beta, (SCALE as int) * beta, SCALE as int);
    vstd::arithmetic::div_mod::lemma_div_multiples_vanish(beta, SCALE as int);
}

} // verus!
