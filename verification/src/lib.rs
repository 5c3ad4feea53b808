//! Pricing resolution and allocation engine for dive-trip line items.
//!
//! Computes operator costs and customer charges for boat usage, gas fills,
//! equipment rentals and shared trip costs. All amounts are exact minor-unit
//! integers tagged with a caller-supplied currency code; a single rounding
//! policy (round half up) is applied by every calculator at the same point.

pub mod agreement;
pub mod allocate;
pub mod boat;
pub mod cache;
pub mod content;
pub mod deco;
pub mod digits;
pub mod errors;
pub mod gas;
pub mod money;
pub mod resolver;
pub mod totals;
pub mod version;
