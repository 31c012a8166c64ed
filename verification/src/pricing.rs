//! The Black-Scholes option pricer: contract validation, the d1/d2
//! derivation, and the closed-form price and Greek formulas, all in
//! fixed-point arithmetic with exact contracts.
//!
//! The standard normal CDF and PDF, the logarithm of the moneyness and the
//! discount factor are irreducibly floating-point; the caller evaluates them
//! (for instance with a numeric library) and passes them in as fixed-point
//! values. Every formula that combines them is verified here. The put
//! formulas use the reflection `Phi(-x) == 1 - Phi(x)` of the standard
//! normal CDF, so both option types are stated over the same two CDF values.

use vstd::prelude::*;

use crate::fixed::{
    fx_div, fx_div_spec, fx_mul, fx_mul_spec, fx_sqrt, fx_sqrt_spec, lemma_mul_magnitude,
    lemma_tdiv_nonneg, HALF_SCALE, SCALE,
};

verus! {

/// Largest admissible magnitude of a contract parameter: one million whole
/// units. A machine limit that keeps every intermediate product of the
/// formulas inside the fixed-point range.
pub const PARAM_MAX: i128 = 1_000_000_000_000_000;

/// Largest admissible magnitude of the log-moneyness input: one hundred
/// whole units, far above `ln(spot / strike)` for any admissible contract.
pub const LN_MAX: i128 = 100_000_000_000;

/// Largest value `fx_sqrt` can return for an admissible expiry.
pub const SQRT_T_MAX: i128 = 1_000_000_000_000;

/// The single error of the pricer: an input on which the model is not
/// defined (a non-positive spot, strike, expiry or volatility, or a value
/// beyond the machine limits of the fixed-point range).
#[derive(Clone, Copy, Debug, PartialEq, Eq, Structural)]
pub struct InvalidInputError;

/// A European vanilla option together with the market state, in fixed
/// point: `spot`, `strike`, `expiry` (years), `rate` (continuously
/// compounded) and `volatility` (annualized).
#[derive(Clone, Copy, Debug, PartialEq, Eq, Structural)]
pub struct OptionContract {
    pub is_call: bool,
    pub spot: i128,
    pub strike: i128,
    pub expiry: i128,
    pub rate: i128,
    pub volatility: i128,
}

/// The intermediate quantities shared by the price and the Greeks.
#[derive(Clone, Copy, Debug, PartialEq, Eq, Structural)]
pub struct DerivedTerms {
    pub sqrt_t: i128,
    pub sigma_sqrt_t: i128,
    pub d1: i128,
    pub d2: i128,
}

/// The standard normal evaluations and the discount factor the formulas
/// consume: `Phi(d1)`, `Phi(d2)`, `phi(d1)` and `e^(-rate * expiry)`.
#[derive(Clone, Copy, Debug, PartialEq, Eq, Structural)]
pub struct NormalKernel {
    pub cdf_d1: i128,
    pub cdf_d2: i128,
    pub pdf_d1: i128,
    pub discount: i128,
}

/// The five first-order sensitivities, one named field each.
#[derive(Clone, Copy, Debug, PartialEq, Eq, Structural)]
pub struct Greeks {
    pub delta: i128,
    pub gamma: i128,
    pub theta: i128,
    pub vega: i128,
    pub rho: i128,
}

/// The theoretical value of the option and its five sensitivities.
#[derive(Clone, Copy, Debug, PartialEq, Eq, Structural)]
pub struct PricingResult {
    pub price: i128,
    pub greeks: Greeks,
}

impl NormalKernel {
    /// A CDF or PDF value lies in [0, 1]; the discount factor is
    /// nonnegative and within the parameter range.
    pub open spec fn valid(self) -> bool {
        &&& 0 <= self.cdf_d1 <= SCALE
        &&& 0 <= self.cdf_d2 <= SCALE
        &&& 0 <= self.pdf_d1 <= SCALE
        &&& 0 <= self.discount <= PARAM_MAX
    }
}

/// sigma^2 / 2, the drift adjustment of d1.
pub open spec fn half_variance_spec(volatility: int) -> int {
    fx_mul_spec(fx_mul_spec(volatility, volatility), HALF_SCALE as int)
}

/// The numerator of d1: ln(spot / strike) + (rate + sigma^2 / 2) * expiry.
pub open spec fn d1_numerator_spec(ln_spot_over_strike: int, rate: int, volatility: int, expiry: int) -> int {
    ln_spot_over_strike + fx_mul_spec(rate + half_variance_spec(volatility), expiry)
}

/// The discounted strike: strike * e^(-rate * expiry).
pub open spec fn discounted_strike_spec(strike: int, discount: int) -> int {
    fx_mul_spec(strike, discount)
}

/// Call price: spot * Phi(d1) - strike * e^(-rate * expiry) * Phi(d2).
pub open spec fn call_price_spec(spot: int, strike: int, cdf_d1: int, cdf_d2: int, discount: int) -> int {
    fx_mul_spec(spot, cdf_d1) - fx_mul_spec(discounted_strike_spec(strike, discount), cdf_d2)
}

/// Put price: strike * e^(-rate * expiry) * Phi(-d2) - spot * Phi(-d1),
/// with Phi(-x) written as 1 - Phi(x).
pub open spec fn put_price_spec(spot: int, strike: int, cdf_d1: int, cdf_d2: int, discount: int) -> int {
    fx_mul_spec(discounted_strike_spec(strike, discount), (SCALE as int) - cdf_d2) - fx_mul_spec(
        spot,
        (SCALE as int) - cdf_d1,
    )
}

/// The price of either option type.
pub open spec fn price_spec(
    is_call: bool,
    spot: int,
    strike: int,
    cdf_d1: int,
    cdf_d2: int,
    discount: int,
) -> int {
    if is_call {
        call_price_spec(spot, strike, cdf_d1, cdf_d2, discount)
    } else {
        put_price_spec(spot, strike, cdf_d1, cdf_d2, discount)
    }
}

/// Delta: Phi(d1) for a call, -Phi(-d1) for a put.
pub open spec fn delta_spec(is_call: bool, cdf_d1: int) -> int {
    if is_call {
        cdf_d1
    } else {
        -((SCALE as int) - cdf_d1)
    }
}

/// The denominator of Gamma: spot * volatility * sqrt(expiry).
pub open spec fn gamma_denominator_spec(spot: int, volatility: int, sqrt_t: int) -> int {
    fx_mul_spec(fx_mul_spec(spot, volatility), sqrt_t)
}

/// Gamma: phi(d1) / (spot * volatility * sqrt(expiry)); the same for call
/// and put.
pub open spec fn gamma_spec(spot: int, volatility: int, sqrt_t: int, pdf_d1: int) -> int {
    fx_div_spec(pdf_d1, gamma_denominator_spec(spot, volatility, sqrt_t))
}

/// Vega: spot * sqrt(expiry) * phi(d1); the same for call and put.
pub open spec fn vega_spec(spot: int, sqrt_t: int, pdf_d1: int) -> int {
    fx_mul_spec(fx_mul_spec(spot, sqrt_t), pdf_d1)
}

/// The shared Rho factor: -strike * expiry * e^(-rate * expiry).
pub open spec fn rho_base_spec(strike: int, expiry: int, discount: int) -> int {
    -fx_mul_spec(fx_mul_spec(strike, expiry), discount)
}

/// Rho: the shared factor times Phi(d2) for a call, times Phi(-d2) for a
/// put.
pub open spec fn rho_spec(is_call: bool, strike: int, expiry: int, discount: int, cdf_d2: int) -> int {
    if is_call {
        fx_mul_spec(rho_base_spec(strike, expiry, discount), cdf_d2)
    } else {
        fx_mul_spec(rho_base_spec(strike, expiry, discount), (SCALE as int) - cdf_d2)
    }
}

/// The time-decay term (spot * volatility * phi(d1)) / (2 * sqrt(expiry)).
pub open spec fn theta_term1_spec(spot: int, volatility: int, pdf_d1: int, sqrt_t: int) -> int {
    fx_div_spec(fx_mul_spec(fx_mul_spec(spot, volatility), pdf_d1), 2 * sqrt_t)
}

/// The carry term rate * strike * e^(-rate * expiry).
pub open spec fn theta_term2_spec(rate: int, strike: int, discount: int) -> int {
    fx_mul_spec(fx_mul_spec(rate, strike), discount)
}

/// Theta: -term1 - term2 * Phi(d2) for a call, -term1 + term2 * Phi(-d2)
/// for a put.
pub open spec fn theta_spec(
    is_call: bool,
    spot: int,
    strike: int,
    rate: int,
    volatility: int,
    sqrt_t: int,
    pdf_d1: int,
    cdf_d2: int,
    discount: int,
) -> int {
    let term1: int = theta_term1_spec(spot, volatility, pdf_d1, sqrt_t);
    let term2: int = theta_term2_spec(rate, strike, discount);
    if is_call {
        -term1 - fx_mul_spec(term2, cdf_d2)
    } else {
        -term1 + fx_mul_spec(term2, (SCALE as int) - cdf_d2)
    }
}

impl OptionContract {
    /// Spot, strike, expiry and volatility are positive; every parameter is
    /// within the fixed-point parameter range.
    pub open spec fn valid(self) -> bool {
        &&& 0 < self.spot <= PARAM_MAX
        &&& 0 < self.strike <= PARAM_MAX
        &&& 0 < self.expiry <= PARAM_MAX
        &&& 0 < self.volatility <= PARAM_MAX
        &&& -PARAM_MAX <= self.rate <= PARAM_MAX
    }

    /// Builds a contract, rejecting exactly the inputs on which the model
    /// is undefined: a non-positive spot, strike, expiry or volatility, or
    /// a parameter beyond the fixed-point range.
    pub fn new(
        is_call: bool,
        spot: i128,
        strike: i128,
        expiry: i128,
        rate: i128,
        volatility: i128,
    ) -> (r: Result<OptionContract, InvalidInputError>)
        ensures
            r is Ok <==> (OptionContract { is_call, spot, strike, expiry, rate, volatility }).valid(),
            r is Ok ==> r->Ok_0 == (OptionContract { is_call, spot, strike, expiry, rate, volatility }),
    {
        if spot <= 0 || spot > PARAM_MAX || strike <= 0 || strike > PARAM_MAX || expiry <= 0
            || expiry > PARAM_MAX || volatility <= 0 || volatility > PARAM_MAX || rate < -PARAM_MAX
            || rate > PARAM_MAX {
            Err(InvalidInputError)
        } else {
            Ok(OptionContract { is_call, spot, strike, expiry, rate, volatility })
        }
    }

    /// The d1/d2 derivation, the numerically sensitive step:
    ///
    /// ```text
    /// sigma_sqrt_t = volatility * sqrt(expiry)
    /// d1 = ( ln(spot/strike) + (rate + volatility^2/2) * expiry ) / sigma_sqrt_t
    /// d2 = d1 - sigma_sqrt_t
    /// ```
    ///
    /// The caller supplies `ln(spot / strike)` in fixed point (the logarithm
    /// is floating-point work); the square root, the products and the
    /// quotient are computed and verified here. The one failure is a
    /// `sigma_sqrt_t` so small that it rounds to zero, which would make d1
    /// a division by zero.
    pub fn derived_terms(&self, ln_spot_over_strike: i128) -> (r: Result<
        DerivedTerms,
        InvalidInputError,
    >)
        requires
            self.valid(),
            -LN_MAX <= ln_spot_over_strike <= LN_MAX,
        ensures
            r is Err <==> fx_mul_spec(
                self.volatility as int,
                fx_sqrt_spec(self.expiry as int),
            ) == 0,
            r is Ok ==> {
                let t = r->Ok_0;
                &&& t.sqrt_t == fx_sqrt_spec(self.expiry as int)
                &&& 0 <= t.sqrt_t <= SQRT_T_MAX
                &&& t.sigma_sqrt_t == fx_mul_spec(self.volatility as int, t.sqrt_t as int)
                &&& 0 < t.sigma_sqrt_t
                &&& t.d1 == fx_div_spec(
                    d1_numerator_spec(
                        ln_spot_over_strike as int,
                        self.rate as int,
                        self.volatility as int,
                        self.expiry as int,
                    ),
                    t.sigma_sqrt_t as int,
                )
                &&& t.d2 == t.d1 - t.sigma_sqrt_t
            },
    {
        let sqrt_t: i128 = fx_sqrt(self.expiry);
        proof {
            assert(sqrt_t <= SQRT_T_MAX) by (nonlinear_arith)
                requires
                    0 <= sqrt_t as int,
                    (sqrt_t as int) * (sqrt_t as int) <= (self.expiry as int) * (SCALE as int),
                    (self.expiry as int) * (SCALE as int) <= 1_000_000_000_000_000_000_000_000,
                    SQRT_T_MAX == 1_000_000_000_000;
            lemma_mul_magnitude(self.volatility as int, sqrt_t as int, PARAM_MAX as int, SQRT_T_MAX as int);
        }
        let sigma_sqrt_t: i128 = fx_mul(self.volatility, sqrt_t);
        if sigma_sqrt_t <= 0 {
            proof {
                assert((self.volatility as int) * (sqrt_t as int) >= 0) by (nonlinear_arith)
                    requires
                        self.volatility as int >= 0,
                        sqrt_t as int >= 0;
            }
            Err(InvalidInputError)
        } else {
            proof {
                lemma_mul_magnitude(self.volatility as int, self.volatility as int, PARAM_MAX as int, PARAM_MAX as int);
            }
            let var: i128 = fx_mul(self.volatility, self.volatility);
            proof {
                lemma_mul_magnitude(var as int, HALF_SCALE as int, 1_000_000_000_000_000_000_000, HALF_SCALE as int);
            }
            let half_var: i128 = fx_mul(var, HALF_SCALE);
            let drift: i128 = self.rate + half_var;
            proof {
                lemma_mul_magnitude(drift as int, self.expiry as int, 501_000_000_000_000_000_000, PARAM_MAX as int);
            }
            let drift_t: i128 = fx_mul(drift, self.expiry);
            let numerator: i128 = ln_spot_over_strike + drift_t;
            let d1: i128 = fx_div(numerator, sigma_sqrt_t);
            let d2: i128 = d1 - sigma_sqrt_t;
            Ok(DerivedTerms { sqrt_t, sigma_sqrt_t, d1, d2 })
        }
    }

    /// The theoretical option value, combining the caller-supplied normal
    /// evaluations with the risk-neutral discounted-expectation formula for
    /// the contract's option type.
    pub fn option_price(&self, normals: &NormalKernel) -> (price: i128)
        requires
            self.valid(),
            normals.valid(),
        ensures
            price == price_spec(
                self.is_call,
                self.spot as int,
                self.strike as int,
                normals.cdf_d1 as int,
                normals.cdf_d2 as int,
                normals.discount as int,
            ),
    {
        proof {
            lemma_mul_magnitude(self.strike as int, normals.discount as int, PARAM_MAX as int, PARAM_MAX as int);
        }
        let discounted_strike: i128 = fx_mul(self.strike, normals.discount);
        proof {
            lemma_mul_magnitude(
                discounted_strike as int,
                (SCALE as int) - normals.cdf_d2,
                1_000_000_000_000_000_000_000,
                SCALE as int,
            );
            lemma_mul_magnitude(discounted_strike as int, normals.cdf_d2 as int, 1_000_000_000_000_000_000_000, SCALE as int);
            lemma_mul_magnitude(self.spot as int, normals.cdf_d1 as int, PARAM_MAX as int, SCALE as int);
            lemma_mul_magnitude(self.spot as int, (SCALE as int) - normals.cdf_d1, PARAM_MAX as int, SCALE as int);
        }
        if self.is_call {
            let a: i128 = fx_mul(self.spot, normals.cdf_d1);
            let b: i128 = fx_mul(discounted_strike, normals.cdf_d2);
            a - b
        } else {
            let a: i128 = fx_mul(discounted_strike, SCALE - normals.cdf_d2);
            let b: i128 = fx_mul(self.spot, SCALE - normals.cdf_d1);
            a - b
        }
    }

    /// The five Greeks of the contract, from the derived terms and the
    /// caller-supplied normal evaluations. Fails only when the Gamma
    /// denominator `spot * volatility * sqrt(expiry)` rounds to zero, which
    /// would make Gamma a division by zero.
    pub fn greeks(&self, terms: &DerivedTerms, normals: &NormalKernel) -> (r: Result<
        Greeks,
        InvalidInputError,
    >)
        requires
            self.valid(),
            normals.valid(),
            0 <= terms.sqrt_t <= SQRT_T_MAX,
        ensures
            r is Err <==> gamma_denominator_spec(
                self.spot as int,
                self.volatility as int,
                terms.sqrt_t as int,
            ) == 0,
            r is Ok ==> {
                let g = r->Ok_0;
                &&& g.delta == delta_spec(self.is_call, normals.cdf_d1 as int)
                &&& g.gamma == gamma_spec(
                    self.spot as int,
                    self.volatility as int,
                    terms.sqrt_t as int,
                    normals.pdf_d1 as int,
                )
                &&& g.theta == theta_spec(
                    self.is_call,
                    self.spot as int,
                    self.strike as int,
                    self.rate as int,
                    self.volatility as int,
                    terms.sqrt_t as int,
                    normals.pdf_d1 as int,
                    normals.cdf_d2 as int,
                    normals.discount as int,
                )
                &&& g.vega == vega_spec(self.spot as int, terms.sqrt_t as int, normals.pdf_d1 as int)
                &&& g.rho == rho_spec(
                    self.is_call,
                    self.strike as int,
                    self.expiry as int,
                    normals.discount as int,
                    normals.cdf_d2 as int,
                )
            },
    {
        proof {
            lemma_mul_magnitude(self.spot as int, self.volatility as int, PARAM_MAX as int, PARAM_MAX as int);
            assert((self.spot as int) * (self.volatility as int) >= 0) by (nonlinear_arith)
                requires
                    self.spot as int >= 0,
                    self.volatility as int >= 0;
            lemma_tdiv_nonneg((self.spot as int) * (self.volatility as int), SCALE as int);
        }
        let spot_vol: i128 = fx_mul(self.spot, self.volatility);
        proof {
            lemma_mul_magnitude(spot_vol as int, terms.sqrt_t as int, 1_000_000_000_000_000_000_000, SQRT_T_MAX as int);
            assert((spot_vol as int) * (terms.sqrt_t as int) >= 0) by (nonlinear_arith)
                requires
                    spot_vol as int >= 0,
                    terms.sqrt_t as int >= 0;
            lemma_tdiv_nonneg((spot_vol as int) * (terms.sqrt_t as int), SCALE as int);
        }
        let gamma_den: i128 = fx_mul(spot_vol, terms.sqrt_t);
        if gamma_den <= 0 {
            Err(InvalidInputError)
        } else {
            proof {
                assert(terms.sqrt_t as int >= 1) by (nonlinear_arith)
                    requires
                        (spot_vol as int) * (terms.sqrt_t as int) >= 1_000_000_000,
                        terms.sqrt_t as int >= 0;
            }
            let delta: i128 = if self.is_call {
                normals.cdf_d1
            } else {
                -(SCALE - normals.cdf_d1)
            };
            let gamma: i128 = fx_div(normals.pdf_d1, gamma_den);
            proof {
                lemma_mul_magnitude(self.spot as int, terms.sqrt_t as int, PARAM_MAX as int, SQRT_T_MAX as int);
            }
            let spot_sqrt_t: i128 = fx_mul(self.spot, terms.sqrt_t);
            proof {
                lemma_mul_magnitude(
                    spot_sqrt_t as int,
                    normals.pdf_d1 as int,
                    1_000_000_000_000_000_000,
                    SCALE as int,
                );
            }
            let vega: i128 = fx_mul(spot_sqrt_t, normals.pdf_d1);
            proof {
                lemma_mul_magnitude(self.strike as int, self.expiry as int, PARAM_MAX as int, PARAM_MAX as int);
            }
            let strike_expiry: i128 = fx_mul(self.strike, self.expiry);
            proof {
                lemma_mul_magnitude(
                    strike_expiry as int,
                    normals.discount as int,
                    1_000_000_000_000_000_000_000,
                    PARAM_MAX as int,
                );
            }
            let rho_base: i128 = -fx_mul(strike_expiry, normals.discount);
            proof {
                lemma_mul_magnitude(
                    rho_base as int,
                    normals.cdf_d2 as int,
                    1_000_000_000_000_000_000_000_000_000,
                    SCALE as int,
                );
                lemma_mul_magnitude(
                    rho_base as int,
                    (SCALE as int) - normals.cdf_d2,
                    1_000_000_000_000_000_000_000_000_000,
                    SCALE as int,
                );
            }
            let rho: i128 = if self.is_call {
                fx_mul(rho_base, normals.cdf_d2)
            } else {
                fx_mul(rho_base, SCALE - normals.cdf_d2)
            };
            proof {
                lemma_mul_magnitude(spot_vol as int, normals.pdf_d1 as int, 1_000_000_000_000_000_000_000, SCALE as int);
            }
            let theta_num: i128 = fx_mul(spot_vol, normals.pdf_d1);
            let term1: i128 = fx_div(theta_num, 2 * terms.sqrt_t);
            proof {
                lemma_mul_magnitude(self.rate as int, self.strike as int, PARAM_MAX as int, PARAM_MAX as int);
            }
            let rate_strike: i128 = fx_mul(self.rate, self.strike);
            proof {
                lemma_mul_magnitude(
                    rate_strike as int,
                    normals.discount as int,
                    1_000_000_000_000_000_000_000,
                    PARAM_MAX as int,
                );
            }
            let term2: i128 = fx_mul(rate_strike, normals.discount);
            proof {
                lemma_mul_magnitude(term2 as int, normals.cdf_d2 as int, 1_000_000_000_000_000_000_000_000_000, SCALE as int);
                lemma_mul_magnitude(
                    term2 as int,
                    (SCALE as int) - normals.cdf_d2,
                    1_000_000_000_000_000_000_000_000_000,
                    SCALE as int,
                );
            }
            let theta: i128 = if self.is_call {
                -term1 - fx_mul(term2, normals.cdf_d2)
            } else {
                -term1 + fx_mul(term2, SCALE - normals.cdf_d2)
            };
            Ok(Greeks { delta, gamma, theta, vega, rho })
        }
    }

    /// The price and the five Greeks in one result, the single pricing
    /// operation of the library.
    pub fn price_result(&self, terms: &DerivedTerms, normals: &NormalKernel) -> (r: Result<
        PricingResult,
        InvalidInputError,
    >)
        requires
            self.valid(),
            normals.valid(),
            0 <= terms.sqrt_t <= SQRT_T_MAX,
        ensures
            r is Err <==> gamma_denominator_spec(
                self.spot as int,
                self.volatility as int,
                terms.sqrt_t as int,
            ) == 0,
            r is Ok ==> r->Ok_0.price == price_spec(
                self.is_call,
                self.spot as int,
                self.strike as int,
                normals.cdf_d1 as int,
                normals.cdf_d2 as int,
                normals.discount as int,
            ),
            r is Ok ==> {
                let g = r->Ok_0.greeks;
                &&& g.delta == delta_spec(self.is_call, normals.cdf_d1 as int)
                &&& g.gamma == gamma_spec(
                    self.spot as int,
                    self.volatility as int,
                    terms.sqrt_t as int,
                    normals.pdf_d1 as int,
                )
                &&& g.theta == theta_spec(
                    self.is_call,
                    self.spot as int,
                    self.strike as int,
                    self.rate as int,
                    self.volatility as int,
                    terms.sqrt_t as int,
                    normals.pdf_d1 as int,
                    normals.cdf_d2 as int,
                    normals.discount as int,
                )
                &&& g.vega == vega_spec(self.spot as int, terms.sqrt_t as int, normals.pdf_d1 as int)
                &&& g.rho == rho_spec(
                    self.is_call,
                    self.strike as int,
                    self.expiry as int,
                    normals.discount as int,
                    normals.cdf_d2 as int,
                )
            },
    {
        match self.greeks(terms, normals) {
            Ok(greeks) => {
                let price: i128 = self.option_price(normals);
                Ok(PricingResult { price, greeks })
            },
            Err(e) => Err(e),
        }
    }

}

} // verus!
