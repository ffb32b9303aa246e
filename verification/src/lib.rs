//! A local PII detection core: normalizes text, scans it for Social
//! Security-like digit runs and Luhn-validated credit-card numbers, and
//! renders the findings as a textual response array.

pub mod binding;
pub mod detector;
pub mod luhn;
pub mod normalize;
pub mod text;
pub mod wire;
