//! Signed fixed-point arithmetic with nine decimal places, the number
//! representation of the pricing model.
//!
//! A real value `x` is represented by the integer closest to `x * SCALE`.
//! Multiplication and division round toward zero; their contracts state the
//! result exactly as a truncating integer division, so callers can reason
//! about the rounding.

use vstd::prelude::*;

verus! {

/// One whole unit: the representation of the real number 1.
pub const SCALE: i128 = 1_000_000_000;

/// The representation of one half, used for the sigma^2 / 2 drift term.
pub const HALF_SCALE: i128 = 500_000_000;

/// Largest admissible magnitude of the exact product `a * b` in `fx_mul`
/// (10^36, comfortably inside the `i128` range).
pub const MUL_IN_MAX: i128 = 1_000_000_000_000_000_000_000_000_000_000_000_000;

/// Largest admissible magnitude of the dividend in `fx_div` and of the
/// radicand in `fx_sqrt` (10^27), so that scaling it by `SCALE` stays
/// inside the `i128` range.
pub const DIV_IN_MAX: i128 = 1_000_000_000_000_000_000_000_000_000;

pub open spec fn fx_abs(a: int) -> int {
    if a >= 0 {
        a
    } else {
        -a
    }
}

/// Truncating (round-toward-zero) integer division: the rounding used by
/// every fixed-point operation here.
pub open spec fn tdiv(a: int, b: int) -> int
    recommends
        b != 0,
{
    if (a >= 0) == (b >= 0) {
        fx_abs(a) / fx_abs(b)
    } else {
        -(fx_abs(a) / fx_abs(b))
    }
}

/// The fixed-point product: the exact product, scaled back down, rounded
/// toward zero.
pub open spec fn fx_mul_spec(a: int, b: int) -> int {
    tdiv(a * b, SCALE as int)
}

/// The fixed-point quotient: the dividend scaled up, divided, rounded
/// toward zero.
pub open spec fn fx_div_spec(a: int, b: int) -> int {
    tdiv(a * (SCALE as int), b)
}

/// `r` is the integer square root of `n`.
pub open spec fn is_isqrt(n: int, r: int) -> bool {
    0 <= r && r * r <= n && n < (r + 1) * (r + 1)
}

/// The fixed-point square root of `x`: the integer square root of
/// `x * SCALE`, since sqrt(x / SCALE) * SCALE == sqrt(x * SCALE).
pub open spec fn fx_sqrt_spec(x: int) -> int {
    choose|r: int| #[trigger] is_isqrt(x * (SCALE as int), r)
}

/// The integer square root is unique.
pub proof fn lemma_isqrt_unique(n: int, r1: int, r2: int)
    by (nonlinear_arith)
    requires
        0 <= r1,
        r1 * r1 <= n,
        n < (r1 + 1) * (r1 + 1),
        0 <= r2,
        r2 * r2 <= n,
        n < (r2 + 1) * (r2 + 1),
    ensures
        r1 == r2,
{
}

/// A product is bounded by the product of the bounds on its factors.
pub proof fn lemma_mul_magnitude(a: int, b: int, ca: int, cb: int)
    by (nonlinear_arith)
    requires
        -ca <= a <= ca,
        -cb <= b <= cb,
        0 <= ca,
        0 <= cb,
    ensures
        -(ca * cb) <= a * b <= ca * cb,
{
}

/// Truncating division of a nonnegative value by a positive one is
/// nonnegative and no larger than the dividend.
pub proof fn lemma_tdiv_nonneg(a: int, b: int)
    requires
        0 <= a,
        0 < b,
    ensures
        0 <= tdiv(a, b) <= a,
{
    assert(0 <= a / b <= a) by (nonlinear_arith)
        requires
            0 <= a,
            1 <= b;
}

/// Truncating division by a positive value preserves order on nonnegative
/// dividends.
pub proof fn lemma_tdiv_ordered(u: int, v: int, b: int)
    requires
        0 <= u <= v,
        0 < b,
    ensures
        tdiv(u, b) <= tdiv(v, b),
{
    assert(u / b <= v / b) by (nonlinear_arith)
        requires
            0 <= u <= v,
            1 <= b;
}

/// Truncating division by a positive value is strictly ordered once the
/// dividends are a full divisor apart.
pub proof fn lemma_tdiv_strict_ordered(u: int, v: int, b: int)
    requires
        0 <= u,
        u + b <= v,
        0 < b,
    ensures
        tdiv(u, b) < tdiv(v, b),
{
    assert(u / b < v / b) by (nonlinear_arith)
        requires
            0 <= u,
            u + b <= v,
            1 <= b;
}

/// Fixed-point multiplication.
pub fn fx_mul(a: i128, b: i128) -> (r: i128)
    requires
        -MUL_IN_MAX <= (a as int) * (b as int) <= MUL_IN_MAX,
    ensures
        r == fx_mul_spec(a as int, b as int),
        fx_abs(r as int) * (SCALE as int) <= fx_abs((a as int) * (b as int)),
{
    let p: i128 = a * b;
    if p >= 0 {
        let q: u128 = (p as u128) / (SCALE as u128);
        q as i128
    } else {
        let m: u128 = (-p) as u128;
        let q: u128 = m / (SCALE as u128);
        -(q as i128)
    }
}

/// Fixed-point division.
pub fn fx_div(a: i128, b: i128) -> (r: i128)
    requires
        b != 0,
        -DIV_IN_MAX <= a <= DIV_IN_MAX,
        -DIV_IN_MAX <= b <= DIV_IN_MAX,
    ensures
        r == fx_div_spec(a as int, b as int),
        fx_abs(r as int) <= fx_abs(a as int) * (SCALE as int),
{
    let p: i128 = a * SCALE;
    let ma: u128 = if p >= 0 {
        p as u128
    } else {
        (-p) as u128
    };
    let mb: u128 = if b >= 0 {
        b as u128
    } else {
        (-b) as u128
    };
    let q: u128 = ma / mb;
    proof {
        assert((ma as int) / (mb as int) <= ma as int) by (nonlinear_arith)
            requires
                ma as int >= 0,
                mb as int >= 1;
    }
    if (p >= 0) == (b >= 0) {
        q as i128
    } else {
        -(q as i128)
    }
}

/// Fixed-point square root of a nonnegative value, by binary search.
pub fn fx_sqrt(x: i128) -> (r: i128)
    requires
        0 <= x <= DIV_IN_MAX,
    ensures
        is_isqrt((x as int) * (SCALE as int), r as int),
        r == fx_sqrt_spec(x as int),
        0 <= r,
{
    let xu: u128 = x as u128;
    proof {
        assert(xu as int == x as int);
        assert(SCALE as u128 as int == 1_000_000_000int);
        assert((xu as int) * 1_000_000_000int
            <= 1_000_000_000_000_000_000_000_000_000_000_000_000int) by (nonlinear_arith)
            requires
                0 <= xu as int <= 1_000_000_000_000_000_000_000_000_000int;
    }
    let n: u128 = xu * (SCALE as u128);
    let mut lo: u128 = 0;
    let mut hi: u128 = 2_000_000_000_000_000_000;
    proof {
        assert((n as int) < (hi as int) * (hi as int)) by (nonlinear_arith)
            requires
                n as int <= 1_000_000_000_000_000_000_000_000_000_000_000_000,
                hi as int == 2_000_000_000_000_000_000;
    }
    while lo + 1 < hi
        invariant
            lo < hi,
            hi <= 2_000_000_000_000_000_000,
            (lo as int) * (lo as int) <= n as int,
            (n as int) < (hi as int) * (hi as int),
        decreases hi - lo,
    {
        let mid: u128 = lo + (hi - lo) / 2;
        proof {
            assert((mid as int) * (mid as int) <= u128::MAX as int) by (nonlinear_arith)
                requires
                    0 <= mid as int <= 2_000_000_000_000_000_000;
        }
        if mid * mid <= n {
            lo = mid;
        } else {
            hi = mid;
        }
    }
    proof {
        assert(is_isqrt(n as int, lo as int));
        assert(is_isqrt((x as int) * (SCALE as int), lo as int));
        assert(exists|r: int| #[trigger] is_isqrt((x as int) * (SCALE as int), r));
        let w: int = fx_sqrt_spec(x as int);
        assert(is_isqrt((x as int) * (SCALE as int), w));
        lemma_isqrt_unique((x as int) * (SCALE as int), lo as int, w);
    }
    lo as i128
}

} // verus!
