//! Shared error taxonomy for all calculators.
//!
//! Three domain error kinds, each terminal for the calculation that raised
//! it. Scope types and references are carried as the stable integer ids used
//! to express scopes generically; diagnostic context is opaque text.

use vstd::prelude::*;

verus! {

/// Domain error raised by a calculator.
#[derive(Debug, Clone)]
pub enum PricingError {
    /// No applicable vendor agreement at the given scope and time.
    MissingVendorAgreement { scope_type: u64, scope_ref: u64 },
    /// An agreement or catalog item lacks a needed price rule. `context` is
    /// an opaque diagnostic naming the lookup that failed.
    MissingPrice { catalog_item_id: u64, context: String },
    /// Malformed or inconsistent input, with field-level messages.
    ConfigurationError { message: String, errors: Vec<String> },
}

impl PricingError {
    /// True of the bad-request class of errors (malformed input), false of
    /// the not-found class (missing agreement or price).
    pub fn is_bad_request(&self) -> (r: bool)
        ensures
            r == (self is ConfigurationError),
    {
        match self {
            PricingError::ConfigurationError { .. } => true,
            _ => false,
        }
    }
}

} // verus!
