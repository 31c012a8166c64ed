use bs_pricing::fixed::{fx_div, fx_mul, fx_sqrt, SCALE};
use bs_pricing::pricing::{
    DerivedTerms, InvalidInputError, NormalKernel, OptionContract, PricingResult,
};
use statrs::distribution::{Continuous, ContinuousCDF, Normal};

const SCALE_F: f64 = 1e9;

fn to_fixed(x: f64) -> i128 {
    (x * SCALE_F).round() as i128
}

fn from_fixed(x: i128) -> f64 {
    (x as f64) / SCALE_F
}

fn clamp_unit(x: i128) -> i128 {
    if x < 0 {
        0
    } else if x > SCALE {
        SCALE
    } else {
        x
    }
}

/// Evaluates the floating-point kernels (logarithm, normal CDF/PDF,
/// discount factor) and runs the verified pricing pipeline on them.
fn price_with_greeks(
    is_call: bool,
    spot: f64,
    strike: f64,
    expiry: f64,
    rate: f64,
    volatility: f64,
) -> Result<(DerivedTerms, PricingResult), InvalidInputError> {
    let contract = OptionContract::new(
        is_call,
        to_fixed(spot),
        to_fixed(strike),
        to_fixed(expiry),
        to_fixed(rate),
        to_fixed(volatility),
    )?;
    let terms = contract.derived_terms(to_fixed((spot / strike).ln()))?;
    let norm = Normal::new(0.0, 1.0).unwrap();
    let d1 = from_fixed(terms.d1);
    let d2 = from_fixed(terms.d2);
    let kernel = NormalKernel {
        cdf_d1: clamp_unit(to_fixed(norm.cdf(d1))),
        cdf_d2: clamp_unit(to_fixed(norm.cdf(d2))),
        pdf_d1: clamp_unit(to_fixed(norm.pdf(d1))),
        discount: to_fixed((-rate * expiry).exp()),
    };
    let result = contract.price_result(&terms, &kernel)?;
    Ok((terms, result))
}

fn assert_close(actual: f64, expected: f64, tolerance: f64, what: &str) {
    assert!(
        (actual - expected).abs() <= tolerance,
        "{}: got {}, expected {}",
        what,
        actual,
        expected
    );
}

/// Regression vector: put, spot 80, strike 78, expiry 2, rate 0.02,
/// volatility 0.25.
#[test]
fn test_bs_pricing() {
    let (_, r) = price_with_greeks(false, 80.0, 78.0, 2.0, 0.02, 0.25).unwrap();
    assert_close(from_fixed(r.price), 8.524179762, 1e-5, "price");
    assert_close(from_fixed(r.greeks.delta), -0.358854125, 1e-6, "delta");
    assert_close(from_fixed(r.greeks.gamma), 0.013212473, 1e-6, "gamma");
    assert_close(from_fixed(r.greeks.theta), -1.897844422, 1e-5, "theta");
    assert_close(from_fixed(r.greeks.vega), 42.279913859, 1e-5, "vega");
    assert_close(from_fixed(r.greeks.rho), -74.465019448, 1e-5, "rho");
}

/// Regression vector: at-the-money put, spot 80, strike 80, expiry 1,
/// rate 0.03, volatility 0.3.
#[test]
fn test_atm_put_pricing() {
    let (_, r) = price_with_greeks(false, 80.0, 80.0, 1.0, 0.03, 0.3).unwrap();
    assert_close(from_fixed(r.price), 8.262289402, 1e-5, "price");
    assert_close(from_fixed(r.greeks.delta), -0.401293674, 1e-6, "delta");
    assert_close(from_fixed(r.greeks.gamma), 0.016111172, 1e-6, "gamma");
    assert_close(from_fixed(r.greeks.theta), -3.429043901, 1e-5, "theta");
    assert_close(from_fixed(r.greeks.vega), 30.933449344, 1e-5, "vega");
    assert_close(from_fixed(r.greeks.rho), -40.365783348, 1e-5, "rho");
}

/// At the money, d1 and d2 are exact in fixed point: d1 = (0.03 + 0.045),
/// divided by 0.3, and d2 = d1 - 0.3.
#[test]
fn test_derived_terms_atm_exact() {
    let c = OptionContract::new(false, to_fixed(80.0), to_fixed(80.0), SCALE, to_fixed(0.03), to_fixed(0.3))
        .unwrap();
    let terms = c.derived_terms(0).unwrap();
    assert_eq!(terms.sqrt_t, SCALE);
    assert_eq!(terms.sigma_sqrt_t, 300_000_000);
    assert_eq!(terms.d1, 250_000_000);
    assert_eq!(terms.d2, -50_000_000);
}

/// Put-call parity: call - put == spot - strike * e^(-rate * expiry).
#[test]
fn test_put_call_parity() {
    let (_, call) = price_with_greeks(true, 80.0, 78.0, 2.0, 0.02, 0.25).unwrap();
    let (_, put) = price_with_greeks(false, 80.0, 78.0, 2.0, 0.02, 0.25).unwrap();
    let expected = 80.0 - 78.0 * (-0.02f64 * 2.0).exp();
    assert_close(
        from_fixed(call.price) - from_fixed(put.price),
        expected,
        1e-6,
        "parity gap",
    );
}

/// Delta_call - Delta_put == 1, exactly, in fixed point.
#[test]
fn test_delta_symmetry() {
    let (_, call) = price_with_greeks(true, 80.0, 78.0, 2.0, 0.02, 0.25).unwrap();
    let (_, put) = price_with_greeks(false, 80.0, 78.0, 2.0, 0.02, 0.25).unwrap();
    assert_eq!(call.greeks.delta - put.greeks.delta, SCALE);
}

/// Gamma and Vega are identical for call and put, exactly, in fixed point.
#[test]
fn test_gamma_vega_equal_for_call_and_put() {
    let (_, call) = price_with_greeks(true, 80.0, 78.0, 2.0, 0.02, 0.25).unwrap();
    let (_, put) = price_with_greeks(false, 80.0, 78.0, 2.0, 0.02, 0.25).unwrap();
    assert_eq!(call.greeks.gamma, put.greeks.gamma);
    assert_eq!(call.greeks.vega, put.greeks.vega);
}

/// A larger spot strictly raises the call price, other parameters fixed.
#[test]
fn test_call_price_increases_with_spot() {
    let (_, lower) = price_with_greeks(true, 80.0, 78.0, 2.0, 0.02, 0.25).unwrap();
    let (_, higher) = price_with_greeks(true, 85.0, 78.0, 2.0, 0.02, 0.25).unwrap();
    assert!(higher.price > lower.price);
}

/// A larger spot strictly lowers the put price, other parameters fixed.
#[test]
fn test_put_price_decreases_with_spot() {
    let (_, lower) = price_with_greeks(false, 80.0, 78.0, 2.0, 0.02, 0.25).unwrap();
    let (_, higher) = price_with_greeks(false, 85.0, 78.0, 2.0, 0.02, 0.25).unwrap();
    assert!(higher.price < lower.price);
}

/// As volatility becomes very small, the price converges to the
/// discounted intrinsic value, for the call and for the put.
#[test]
fn test_low_volatility_converges_to_intrinsic() {
    let (_, call) = price_with_greeks(true, 100.0, 90.0, 1.0, 0.05, 1e-4).unwrap();
    let call_intrinsic = 100.0 - 90.0 * (-0.05f64).exp();
    assert_close(from_fixed(call.price), call_intrinsic, 1e-4, "call intrinsic");
    let (_, put) = price_with_greeks(false, 90.0, 100.0, 1.0, 0.05, 1e-4).unwrap();
    let put_intrinsic = 100.0 * (-0.05f64).exp() - 90.0;
    assert_close(from_fixed(put.price), put_intrinsic, 1e-4, "put intrinsic");
}

/// Each non-positive parameter is rejected with the invalid-input error,
/// never priced.
#[test]
fn test_invalid_inputs_rejected() {
    assert!(price_with_greeks(true, 80.0, 78.0, 0.0, 0.02, 0.25).is_err());
    assert!(price_with_greeks(true, 80.0, 78.0, 2.0, 0.02, 0.0).is_err());
    assert!(price_with_greeks(true, -1.0, 78.0, 2.0, 0.02, 0.25).is_err());
    assert!(price_with_greeks(true, 80.0, 0.0, 2.0, 0.02, 0.25).is_err());
    assert!(price_with_greeks(true, 80.0, 78.0, 2.0, 0.02, 0.25).is_ok());
}

/// A parameter beyond the fixed-point range is rejected as invalid input.
#[test]
fn test_out_of_range_parameter_rejected() {
    assert!(OptionContract::new(true, 2_000_000_000_000_000, SCALE, SCALE, 0, SCALE).is_err());
}

/// A volatility and expiry so small that sigma * sqrt(expiry) rounds to
/// zero are rejected rather than divided by.
#[test]
fn test_derived_terms_underflow_rejected() {
    let c = OptionContract::new(false, SCALE, SCALE, 1, 0, 1).unwrap();
    assert!(c.derived_terms(0).is_err());
}

/// A spot so small that spot * volatility * sqrt(expiry) rounds to zero
/// is rejected by the Greeks computation rather than divided by.
#[test]
fn test_greeks_denominator_underflow_rejected() {
    let c = OptionContract::new(false, 1, SCALE, SCALE, 0, 100_000_000).unwrap();
    let terms = c.derived_terms(to_fixed((1e-9f64).ln())).unwrap();
    let norm = Normal::new(0.0, 1.0).unwrap();
    let d1 = from_fixed(terms.d1);
    let d2 = from_fixed(terms.d2);
    let kernel = NormalKernel {
        cdf_d1: clamp_unit(to_fixed(norm.cdf(d1))),
        cdf_d2: clamp_unit(to_fixed(norm.cdf(d2))),
        pdf_d1: clamp_unit(to_fixed(norm.pdf(d1))),
        discount: SCALE,
    };
    assert!(c.greeks(&terms, &kernel).is_err());
    assert!(c.price_result(&terms, &kernel).is_err());
}

/// The fixed-point square root is the exact integer square root of the
/// scaled radicand.
#[test]
fn test_fixed_sqrt_exact() {
    assert_eq!(fx_sqrt(4 * SCALE), 2 * SCALE);
    assert_eq!(fx_sqrt(2 * SCALE), 1_414_213_562);
    assert_eq!(fx_sqrt(0), 0);
    assert_eq!(fx_sqrt(1), 31_622);
}

/// Multiplication and division round toward zero at the ninth decimal.
#[test]
fn test_fixed_mul_div_rounding() {
    assert_eq!(fx_mul(3 * SCALE, 2 * SCALE), 6 * SCALE);
    assert_eq!(fx_mul(1, 1), 0);
    assert_eq!(fx_mul(-3 * SCALE, 2 * SCALE), -6 * SCALE);
    assert_eq!(fx_div(SCALE, 3 * SCALE), 333_333_333);
    assert_eq!(fx_div(-SCALE, 3 * SCALE), -333_333_333);
    assert_eq!(fx_div(SCALE, -3 * SCALE), -333_333_333);
}
