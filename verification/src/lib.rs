//! Black-Scholes pricing of European vanilla options in fixed-point
//! arithmetic, with verified contracts for the price and Greek formulas.
//!
//! Real-valued quantities are represented as signed integers scaled by
//! `fixed::SCALE` (nine decimal places). The transcendental evaluations the
//! model needs (the standard normal CDF and PDF, the natural logarithm and
//! the exponential) are inherently floating-point and are supplied by the
//! caller as fixed-point values; everything that combines them into d1, d2,
//! the price and the five Greeks is verified here.

pub mod fixed;
pub mod laws;
pub mod pricing;
