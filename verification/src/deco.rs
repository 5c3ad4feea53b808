//! Input-validation errors for dive-profile checks. The physiological
//! decompression computation itself is delegated to an external model and
//! is not part of this library; only the error taxonomy of its input
//! validation is, so callers can match on it.

use vstd::prelude::*;
use vstd::string::StringExecFns;

verus! {

/// Why a dive profile was rejected before any computation.
#[derive(Debug)]
pub enum ValidationError {
    /// The profile has no segments.
    NoSegments,
    /// A gas fraction lies outside the unit interval.
    InvalidGasFractions,
    /// The oxygen and helium fractions together exceed one.
    GasFractionsExceedOne,
}

impl ValidationError {
    /// A human-readable description of the error.
    pub fn message(&self) -> (r: String)
        ensures
            self is NoSegments ==> r@ == "no segments provided"@,
            self is InvalidGasFractions ==> r@ == "gas fractions must be between 0.0 and 1.0"@,
            self is GasFractionsExceedOne ==> r@ == "gas fractions (O2 + He) exceed 1.0"@,
    {
        match self {
            ValidationError::NoSegments => String::from_str("no segments provided"),
            ValidationError::InvalidGasFractions => String::from_str(
                "gas fractions must be between 0.0 and 1.0",
            ),
            ValidationError::GasFractionsExceedOne => String::from_str(
                "gas fractions (O2 + He) exceed 1.0",
            ),
        }
    }
}

} // verus!
