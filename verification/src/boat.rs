//! Tiered boat-cost calculator: base + overage pricing from a site-scoped
//! vendor agreement.
//!
//! `overage_count = max(0, diver_count - included_divers)`;
//! `total = base_cost + overage_count * overage_rate` with no intermediate
//! rounding; per-diver figures are rounded once, by the centralized
//! round-half-up policy.

use vstd::prelude::*;
use vstd::string::StringExecFns;

use crate::agreement::{
    AgreementTerms, VendorAgreement, agreement_resolved, resolve_vendor_agreement,
    scope_has_agreement,
};
use crate::errors::PricingError;
use crate::money::{round_half_up, div_round_half_up};
use crate::resolver::Scope;

verus! {

/// The number of divers beyond those the base cost covers:
/// `max(0, diver_count - included)`.
pub open spec fn overage_of(diver_count: int, included: int) -> int {
    if diver_count > included {
        diver_count - included
    } else {
        0
    }
}

/// Computes the overage count for any non-negative diver and included
/// counts.
pub fn compute_overage_count(diver_count: u32, included_divers: u32) -> (r: u32)
    ensures
        r == overage_of(diver_count as int, included_divers as int),
{
    if diver_count > included_divers {
        diver_count - included_divers
    } else {
        0
    }
}

/// Whether an agreement carries tiered terms that the boat calculator can
/// price without overflow for the given diver count: non-negative base and
/// rate, with the total in range.
pub open spec fn tiered_terms_ok(a: VendorAgreement, diver_count: int) -> bool {
    match a.terms {
        AgreementTerms::Tiered { base_cost, included_divers, overage_rate } => {
            let ov = overage_of(diver_count, included_divers as int);
            &&& base_cost >= 0
            &&& overage_rate >= 0
            &&& ov * overage_rate <= i64::MAX
            &&& base_cost + ov * overage_rate <= i64::MAX
        },
        AgreementTerms::PerFill { .. } => false,
    }
}

/// Result of a tiered boat-cost calculation. All amounts are minor units in
/// the vendor agreement's currency.
#[derive(Debug, Clone)]
pub struct BoatCostResult {
    /// `base_cost + overage_count * overage_rate`, exactly.
    pub total: i64,
    /// `total / diver_count`, rounded half up.
    pub per_diver: i64,
    /// The agreement's base cost.
    pub base_cost: i64,
    /// Divers beyond those the base cost covers.
    pub overage_count: u32,
    /// The overage portion split per diver, rounded half up.
    pub overage_per_diver: i64,
    /// Divers the base cost covers, from the agreement.
    pub included_divers: u32,
    /// The diver count supplied by the caller.
    pub diver_count: u32,
    /// Id of the resolved vendor agreement.
    pub agreement_id: u64,
}

/// Whether `res` prices `diver_count` divers under agreement `a`'s tiered
/// terms: exact total, and per-diver figures rounded half up.
pub open spec fn boat_cost_of(res: BoatCostResult, a: VendorAgreement, diver_count: int) -> bool {
    match a.terms {
        AgreementTerms::Tiered { base_cost, included_divers, overage_rate } => {
            let ov = overage_of(diver_count, included_divers as int);
            &&& res.total == base_cost + ov * overage_rate
            &&& res.per_diver == round_half_up(base_cost + ov * overage_rate, diver_count)
            &&& res.base_cost == base_cost
            &&& res.overage_count == ov
            &&& res.overage_per_diver == round_half_up(ov * overage_rate, diver_count)
            &&& res.included_divers == included_divers
            &&& res.diver_count == diver_count
            &&& res.agreement_id == a.id
        },
        AgreementTerms::PerFill { .. } => false,
    }
}

/// Calculates tiered boat cost for a dive site.
///
/// Resolves the vendor agreement over `site_scopes` (most specific scope
/// first) at `as_of`, then computes
/// `total = base_cost + max(0, diver_count - included_divers) * overage_rate`
/// exactly, and rounds the per-diver figures half up. Fails with
/// `ConfigurationError` on a zero diver count, or when the resolved
/// agreement carries per-fill terms, a negative base or rate, or amounts
/// whose total leaves the representable range; fails with
/// `MissingVendorAgreement` naming the most specific scope when no
/// agreement covers the site at `as_of`.
pub fn calculate_boat_cost(
    agreements: &Vec<VendorAgreement>,
    site_scopes: &Vec<Scope>,
    diver_count: u32,
    as_of: i64,
) -> (r: Result<BoatCostResult, PricingError>)
    requires
        site_scopes@.len() >= 1,
    ensures
        match r {
            Ok(res) => {
                &&& diver_count >= 1
                &&& exists|i: int|
                    {
                        &&& #[trigger] agreement_resolved(
                            site_scopes@,
                            agreements@,
                            as_of as int,
                            i,
                        )
                        &&& tiered_terms_ok(agreements@[i], diver_count as int)
                        &&& boat_cost_of(res, agreements@[i], diver_count as int)
                    }
            },
            Err(e) => match e {
                PricingError::ConfigurationError { .. } => {
                    ||| diver_count == 0
                    ||| exists|i: int|
                        #[trigger] agreement_resolved(site_scopes@, agreements@, as_of as int, i)
                            && !tiered_terms_ok(agreements@[i], diver_count as int)
                },
                PricingError::MissingVendorAgreement { scope_type, scope_ref } => {
                    &&& diver_count >= 1
                    &&& forall|k: int|
                        0 <= k < site_scopes@.len() ==> !scope_has_agreement(
                            agreements@,
                            site_scopes@[k],
                            as_of as int,
                        )
                    &&& scope_type == site_scopes@[0].scope_type
                    &&& scope_ref == site_scopes@[0].scope_ref
                },
                PricingError::MissingPrice { .. } => false,
            },
        },
{
    if diver_count == 0 {
        return Err(
            PricingError::ConfigurationError {
                message: String::from_str("diver_count must be at least 1"),
                errors: vec![String::from_str("diver_count: must be at least 1")],
            },
        );
    }
    let i = match resolve_vendor_agreement(site_scopes, as_of, agreements) {
        Ok(i) => i,
        Err(e) => {
            return Err(e);
        },
    };
    let a = &agreements[i];
    match &a.terms {
        AgreementTerms::Tiered { base_cost, included_divers, overage_rate } => {
            let base_cost = *base_cost;
            let included_divers = *included_divers;
            let overage_rate = *overage_rate;
            if base_cost < 0 || overage_rate < 0 {
                return Err(
                    PricingError::ConfigurationError {
                        message: String::from_str(
                            "vendor agreement amounts must not be negative",
                        ),
                        errors: vec![
                            String::from_str(
                                "base_cost, overage_rate: must not be negative",
                            ),
                        ],
                    },
                );
            }
            let overage_count = compute_overage_count(diver_count, included_divers);
            let overage_total = match (overage_count as i64).checked_mul(overage_rate) {
                Some(v) => v,
                None => {
                    return Err(
                        PricingError::ConfigurationError {
                            message: String::from_str("overage amount out of range"),
                            errors: vec![String::from_str("overage_rate: amount out of range")],
                        },
                    );
                },
            };
            let total = match base_cost.checked_add(overage_total) {
                Some(v) => v,
                None => {
                    return Err(
                        PricingError::ConfigurationError {
                            message: String::from_str("total amount out of range"),
                            errors: vec![String::from_str("base_cost: amount out of range")],
                        },
                    );
                },
            };
            let per_diver = div_round_half_up(total, diver_count as i64);
            let overage_per_diver = div_round_half_up(overage_total, diver_count as i64);
            Ok(
                BoatCostResult {
                    total,
                    per_diver,
                    base_cost,
                    overage_count,
                    overage_per_diver,
                    included_divers,
                    diver_count,
                    agreement_id: a.id,
                },
            )
        },
        AgreementTerms::PerFill { .. } => {
            Err(
                PricingError::ConfigurationError {
                    message: String::from_str(
                        "vendor agreement for the site has no tiered terms",
                    ),
                    errors: vec![String::from_str("terms: expected tiered boat-cost terms")],
                },
            )
        },
    }
}

} // verus!
