//! Model-level properties of the pricer, stated and proved over the same
//! spec functions that the executable functions' contracts use.

use vstd::prelude::*;

use crate::fixed::{
    fx_mul_spec, lemma_tdiv_nonneg, lemma_tdiv_ordered, lemma_tdiv_strict_ordered, SCALE,
};
use crate::pricing::{
    call_price_spec, delta_spec, discounted_strike_spec, gamma_spec, put_price_spec, vega_spec,
    OptionContract,
};

verus! {

/// Splitting one whole unit: for `m >= 0` and a weight `a` in `[0, SCALE]`,
/// the truncated products of `m` with `a` and with `SCALE - a` recover `m`
/// up to one unit of the least precision.
proof fn lemma_split_unit(m: int, a: int)
    requires
        0 <= m,
        0 <= a <= SCALE,
    ensures
        m - 1 <= fx_mul_spec(m, a) + fx_mul_spec(m, (SCALE as int) - a) <= m,
{
    let sc: int = SCALE as int;
    let u: int = m * a;
    let v: int = m * (sc - a);
    assert(u >= 0) by (nonlinear_arith)
        requires
            m >= 0,
            a >= 0,
            u == m * a;
    assert(v >= 0) by (nonlinear_arith)
        requires
            m >= 0,
            a <= sc,
            v == m * (sc - a);
    assert(u + v == m * sc) by (nonlinear_arith)
        requires
            u == m * a,
            v == m * (sc - a);
    assert(fx_mul_spec(m, a) == u / sc);
    assert(fx_mul_spec(m, sc - a) == v / sc);
    vstd::arithmetic::div_mod::lemma_fundamental_div_mod(u, sc);
    vstd::arithmetic::div_mod::lemma_fundamental_div_mod(v, sc);
    vstd::arithmetic::div_mod::lemma_mod_division_less_than_divisor(u, sc);
    vstd::arithmetic::div_mod::lemma_mod_division_less_than_divisor(v, sc);
    let q: int = u / sc + v / sc;
    let w: int = u % sc + v % sc;
    assert(sc * (m - q) == w) by (nonlinear_arith)
        requires
            u + v == m * sc,
            u == sc * (u / sc) + u % sc,
            v == sc * (v / sc) + v % sc,
            q == u / sc + v / sc,
            w == u % sc + v % sc;
    assert(m - q >= 0) by (nonlinear_arith)
        requires
            sc * (m - q) == w,
            w >= 0,
            sc >= 1;
    assert(m - q <= 1) by (nonlinear_arith)
        requires
            sc * (m - q) == w,
            w < 2 * sc,
            sc >= 1;
}

/// Put-call parity: with identical parameters and one shared normal
/// evaluation, `call - put` equals `spot` less the discounted strike, up to
/// one unit of the least precision (the fixed-point counterpart of a
/// floating-point tolerance). It rests on the reflection
/// `Phi(-x) == 1 - Phi(x)`, which the put formulas carry by construction.
pub proof fn lemma_put_call_parity(spot: int, strike: int, cdf_d1: int, cdf_d2: int, discount: int)
    requires
        0 <= spot,
        0 <= strike,
        0 <= discount,
        0 <= cdf_d1 <= SCALE,
        0 <= cdf_d2 <= SCALE,
    ensures
        call_price_spec(spot, strike, cdf_d1, cdf_d2, discount) - put_price_spec(
            spot,
            strike,
            cdf_d1,
            cdf_d2,
            discount,
        ) >= spot - discounted_strike_spec(strike, discount) - 1,
        call_price_spec(spot, strike, cdf_d1, cdf_d2, discount) - put_price_spec(
            spot,
            strike,
            cdf_d1,
            cdf_d2,
            discount,
        ) <= spot - discounted_strike_spec(strike, discount) + 1,
{
    let dk: int = discounted_strike_spec(strike, discount);
    assert(strike * discount >= 0) by (nonlinear_arith)
        requires
            strike >= 0,
            discount >= 0;
    lemma_tdiv_nonneg(strike * discount, SCALE as int);
    lemma_split_unit(spot, cdf_d1);
    lemma_split_unit(dk, cdf_d2);
}

/// Delta symmetry: for identical parameters and one shared normal
/// evaluation, `Delta_call - Delta_put` is exactly one, since
/// `Phi(d1) - (-Phi(-d1)) == 1`.
pub proof fn lemma_delta_symmetry(cdf_d1: int)
    ensures
        delta_spec(true, cdf_d1) - delta_spec(false, cdf_d1) == SCALE,
{
}

/// Gamma and Vega do not depend on the option type: two contracts that
/// differ only in `is_call` have identical Gamma and Vega.
pub proof fn lemma_gamma_vega_type_invariant(
    call: OptionContract,
    put: OptionContract,
    sqrt_t: int,
    pdf_d1: int,
)
    requires
        call.is_call,
        !put.is_call,
        call.spot == put.spot,
        call.strike == put.strike,
        call.expiry == put.expiry,
        call.rate == put.rate,
        call.volatility == put.volatility,
    ensures
        gamma_spec(call.spot as int, call.volatility as int, sqrt_t, pdf_d1) == gamma_spec(
            put.spot as int,
            put.volatility as int,
            sqrt_t,
            pdf_d1,
        ),
        vega_spec(call.spot as int, sqrt_t, pdf_d1) == vega_spec(put.spot as int, sqrt_t, pdf_d1),
{
}

/// Monotonicity in the spot at a fixed normal evaluation: a larger spot
/// never lowers the call price and never raises the put price. This is the
/// rounding-safe half of the real-valued statement; strictness holds in
/// the real model, where the normal evaluation itself moves with the spot,
/// and is exercised by the end-to-end tests.
pub proof fn lemma_price_monotone_in_spot(
    spot1: int,
    spot2: int,
    strike: int,
    cdf_d1: int,
    cdf_d2: int,
    discount: int,
)
    requires
        0 <= spot1 <= spot2,
        0 <= cdf_d1 <= SCALE,
        0 <= cdf_d2 <= SCALE,
    ensures
        call_price_spec(spot1, strike, cdf_d1, cdf_d2, discount) <= call_price_spec(
            spot2,
            strike,
            cdf_d1,
            cdf_d2,
            discount,
        ),
        put_price_spec(spot2, strike, cdf_d1, cdf_d2, discount) <= put_price_spec(
            spot1,
            strike,
            cdf_d1,
            cdf_d2,
            discount,
        ),
{
    let sc: int = SCALE as int;
    assert(0 <= spot1 * cdf_d1 <= spot2 * cdf_d1) by (nonlinear_arith)
        requires
            0 <= spot1 <= spot2,
            cdf_d1 >= 0;
    lemma_tdiv_ordered(spot1 * cdf_d1, spot2 * cdf_d1, sc);
    assert(0 <= spot1 * (sc - cdf_d1) <= spot2 * (sc - cdf_d1)) by (nonlinear_arith)
        requires
            0 <= spot1 <= spot2,
            cdf_d1 <= sc;
    lemma_tdiv_ordered(spot1 * (sc - cdf_d1), spot2 * (sc - cdf_d1), sc);
}

/// Strict spot monotonicity at a fixed normal evaluation: once the spot
/// increase carries a full representable unit of weight through `Phi(d1)`
/// (for the call) or through `Phi(-d1)` (for the put), the price move is
/// strict: a larger spot strictly raises the call price and strictly
/// lowers the put price.
pub proof fn lemma_price_strictly_monotone_in_spot(
    spot1: int,
    spot2: int,
    strike: int,
    cdf_d1: int,
    cdf_d2: int,
    discount: int,
)
    requires
        0 <= spot1 <= spot2,
        0 <= cdf_d1 <= SCALE,
        0 <= cdf_d2 <= SCALE,
    ensures
        (spot2 - spot1) * cdf_d1 >= SCALE ==> call_price_spec(
            spot1,
            strike,
            cdf_d1,
            cdf_d2,
            discount,
        ) < call_price_spec(spot2, strike, cdf_d1, cdf_d2, discount),
        (spot2 - spot1) * ((SCALE as int) - cdf_d1) >= SCALE ==> put_price_spec(
            spot2,
            strike,
            cdf_d1,
            cdf_d2,
            discount,
        ) < put_price_spec(spot1, strike, cdf_d1, cdf_d2, discount),
{
    let sc: int = SCALE as int;
    if (spot2 - spot1) * cdf_d1 >= sc {
        assert(0 <= spot1 * cdf_d1 && spot1 * cdf_d1 + sc <= spot2 * cdf_d1) by (nonlinear_arith)
            requires
                0 <= spot1 <= spot2,
                cdf_d1 >= 0,
                (spot2 - spot1) * cdf_d1 >= sc;
        lemma_tdiv_strict_ordered(spot1 * cdf_d1, spot2 * cdf_d1, sc);
    }
    if (spot2 - spot1) * (sc - cdf_d1) >= sc {
        assert(0 <= spot1 * (sc - cdf_d1) && spot1 * (sc - cdf_d1) + sc <= spot2 * (sc - cdf_d1))
            by (nonlinear_arith)
            requires
                0 <= spot1 <= spot2,
                cdf_d1 <= sc,
                (spot2 - spot1) * (sc - cdf_d1) >= sc;
        lemma_tdiv_strict_ordered(spot1 * (sc - cdf_d1), spot2 * (sc - cdf_d1), sc);
    }
}

} // verus!
