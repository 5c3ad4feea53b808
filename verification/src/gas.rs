//! Gas-fill cost calculator: per-fill cost and charge from a shop-scoped
//! vendor agreement, with an optional customer-charge override.
//!
//! The cost per fill always comes from the agreement's gas rule; the charge
//! per fill is the caller's override when supplied, else the rule's charge.
//! `total_cost = cost_per_fill * fills_count` and
//! `total_charge = charge_per_fill * fills_count`, exactly.

use vstd::prelude::*;
use vstd::string::StringExecFns;

use crate::agreement::{
    AgreementTerms, GasRule, VendorAgreement, agreement_resolved, resolve_vendor_agreement,
    scope_has_agreement,
};
use crate::digits::u64_to_string;
use crate::errors::PricingError;
use crate::resolver::Scope;

verus! {

/// Whether gas-rule sequence `rules` holds a rule for `gas_type` at index
/// `j`, and none earlier.
pub open spec fn is_first_gas_rule(rules: Seq<GasRule>, gas_type: Seq<char>, j: int) -> bool {
    &&& 0 <= j < rules.len()
    &&& rules[j].gas_type@ == gas_type
    &&& forall|j2: int| 0 <= j2 < j ==> rules[j2].gas_type@ != gas_type
}

/// Whether any rule of the sequence prices the gas type.
pub open spec fn has_gas_rule(rules: Seq<GasRule>, gas_type: Seq<char>) -> bool {
    exists|j: int| 0 <= j < rules.len() && rules[j].gas_type@ == gas_type
}

/// The charge per fill the calculator uses: the caller's override when one
/// is supplied, else the rule's charge.
pub open spec fn effective_charge(rule: GasRule, override_charge: Option<i64>) -> int {
    match override_charge {
        Some(c) => c as int,
        None => rule.charge_per_fill as int,
    }
}

/// Whether the agreement's gas rule and the caller's inputs can be priced
/// exactly: non-negative amounts whose totals stay in range.
pub open spec fn gas_terms_ok(rule: GasRule, override_charge: Option<i64>, fills: int) -> bool {
    &&& rule.cost_per_fill >= 0
    &&& effective_charge(rule, override_charge) >= 0
    &&& rule.cost_per_fill * fills <= i64::MAX
    &&& effective_charge(rule, override_charge) * fills <= i64::MAX
}

/// Result of a gas-fill calculation. All amounts are minor units in the
/// vendor agreement's currency.
#[derive(Debug, Clone)]
pub struct GasFillResult {
    /// Operator cost for one fill, from the agreement's rule.
    pub cost_per_fill: i64,
    /// Customer charge for one fill: the override, else the rule's charge.
    pub charge_per_fill: i64,
    /// `cost_per_fill * fills_count`, exactly.
    pub total_cost: i64,
    /// `charge_per_fill * fills_count`, exactly.
    pub total_charge: i64,
    /// The fill count supplied by the caller.
    pub fills_count: u32,
    /// The gas type supplied by the caller.
    pub gas_type: String,
    /// Id of the resolved vendor agreement.
    pub agreement_id: u64,
    /// Id of the gas rule's underlying price-rule row.
    pub price_rule_id: u64,
}

/// Whether `res` prices `fills` fills of `gas_type` under rule `rule` of
/// agreement `a`, with the charge override applied.
pub open spec fn gas_fill_cost_of(
    res: GasFillResult,
    a: VendorAgreement,
    rule: GasRule,
    gas_type: Seq<char>,
    override_charge: Option<i64>,
    fills: int,
) -> bool {
    &&& res.cost_per_fill == rule.cost_per_fill
    &&& res.charge_per_fill == effective_charge(rule, override_charge)
    &&& res.total_cost == rule.cost_per_fill * fills
    &&& res.total_charge == effective_charge(rule, override_charge) * fills
    &&& res.fills_count == fills
    &&& res.gas_type@ == gas_type
    &&& res.agreement_id == a.id
    &&& res.price_rule_id == rule.price_rule_id
}

/// Calculates gas-fill cost and charge for a dive shop.
///
/// Resolves the vendor agreement over `shop_scopes` (most specific scope
/// first) at `as_of` and looks up its first rule for `gas_type`. Fails with
/// `MissingVendorAgreement` naming the most specific scope when no
/// agreement covers the shop at `as_of`; with `MissingPrice` when the
/// agreement lacks a rule for `gas_type` (gas rules are keyed by gas type,
/// not catalog item, so the catalog item id of that error is zero); with
/// `ConfigurationError` when the agreement carries tiered terms, or amounts
/// are negative or leave the representable range.
pub fn calculate_gas_fills(
    agreements: &Vec<VendorAgreement>,
    shop_scopes: &Vec<Scope>,
    gas_type: &String,
    fills_count: u32,
    customer_charge_override: Option<i64>,
    as_of: i64,
) -> (r: Result<GasFillResult, PricingError>)
    requires
        shop_scopes@.len() >= 1,
    ensures
        match r {
            Ok(res) => exists|i: int|
                {
                    &&& #[trigger] agreement_resolved(shop_scopes@, agreements@, as_of as int, i)
                    &&& match agreements@[i].terms {
                        AgreementTerms::PerFill { rules } => exists|j: int|
                            {
                                &&& #[trigger] is_first_gas_rule(rules@, gas_type@, j)
                                &&& gas_terms_ok(
                                    rules@[j],
                                    customer_charge_override,
                                    fills_count as int,
                                )
                                &&& gas_fill_cost_of(
                                    res,
                                    agreements@[i],
                                    rules@[j],
                                    gas_type@,
                                    customer_charge_override,
                                    fills_count as int,
                                )
                            },
                        AgreementTerms::Tiered { .. } => false,
                    }
                },
            Err(e) => match e {
                PricingError::MissingVendorAgreement { scope_type, scope_ref } => {
                    &&& forall|k: int|
                        0 <= k < shop_scopes@.len() ==> !scope_has_agreement(
                            agreements@,
                            shop_scopes@[k],
                            as_of as int,
                        )
                    &&& scope_type == shop_scopes@[0].scope_type
                    &&& scope_ref == shop_scopes@[0].scope_ref
                },
                PricingError::MissingPrice { .. } => exists|i: int|
                    #[trigger] agreement_resolved(shop_scopes@, agreements@, as_of as int, i)
                        && match agreements@[i].terms {
                        AgreementTerms::PerFill { rules } => !has_gas_rule(rules@, gas_type@),
                        AgreementTerms::Tiered { .. } => false,
                    },
                PricingError::ConfigurationError { .. } => exists|i: int|
                    #[trigger] agreement_resolved(shop_scopes@, agreements@, as_of as int, i)
                        && match agreements@[i].terms {
                        AgreementTerms::PerFill { rules } => exists|j: int|
                            #[trigger] is_first_gas_rule(rules@, gas_type@, j) && !gas_terms_ok(
                                rules@[j],
                                customer_charge_override,
                                fills_count as int,
                            ),
                        AgreementTerms::Tiered { .. } => true,
                    },
            },
        },
{
    let i = match resolve_vendor_agreement(shop_scopes, as_of, agreements) {
        Ok(i) => i,
        Err(e) => {
            return Err(e);
        },
    };
    let a = &agreements[i];
    match &a.terms {
        AgreementTerms::PerFill { rules } => {
            let mut j: usize = 0;
            while j < rules.len()
                invariant
                    j <= rules.len(),
                    forall|j2: int| 0 <= j2 < j ==> rules@[j2].gas_type@ != gas_type@,
                    i < agreements@.len(),
                    agreement_resolved(shop_scopes@, agreements@, as_of as int, i as int),
                    agreements@[i as int].terms matches AgreementTerms::PerFill { rules: rs }
                        && rs@ == rules@,
                    a == agreements@[i as int],
                decreases rules.len() - j,
            {
                if rules[j].gas_type == *gas_type {
                    let rule = &rules[j];
                    proof {
                        assert(is_first_gas_rule(rules@, gas_type@, j as int));
                    }
                    let cost_per_fill = rule.cost_per_fill;
                    let charge_per_fill = match customer_charge_override {
                        Some(c) => c,
                        None => rule.charge_per_fill,
                    };
                    proof {
                        assert(cost_per_fill >= 0 && fills_count >= 0 ==> cost_per_fill as int * (
                        fills_count as int) >= 0) by (nonlinear_arith);
                        assert(charge_per_fill >= 0 && fills_count >= 0 ==> charge_per_fill as int
                            * (fills_count as int) >= 0) by (nonlinear_arith);
                    }
                    if cost_per_fill < 0 || charge_per_fill < 0 {
                        return Err(
                            PricingError::ConfigurationError {
                                message: String::from_str(
                                    "per-fill amounts must not be negative",
                                ),
                                errors: vec![
                                    String::from_str(
                                        "cost_per_fill, charge_per_fill: must not be negative",
                                    ),
                                ],
                            },
                        );
                    }
                    let total_cost = match cost_per_fill.checked_mul(fills_count as i64) {
                        Some(v) => v,
                        None => {
                            return Err(
                                PricingError::ConfigurationError {
                                    message: String::from_str("total cost out of range"),
                                    errors: vec![
                                        String::from_str("cost_per_fill: amount out of range"),
                                    ],
                                },
                            );
                        },
                    };
                    let total_charge = match charge_per_fill.checked_mul(fills_count as i64) {
                        Some(v) => v,
                        None => {
                            return Err(
                                PricingError::ConfigurationError {
                                    message: String::from_str("total charge out of range"),
                                    errors: vec![
                                        String::from_str(
                                            "charge_per_fill: amount out of range",
                                        ),
                                    ],
                                },
                            );
                        },
                    };
                    return Ok(
                        GasFillResult {
                            cost_per_fill,
                            charge_per_fill,
                            total_cost,
                            total_charge,
                            fills_count,
                            gas_type: gas_type.clone(),
                            agreement_id: a.id,
                            price_rule_id: rule.price_rule_id,
                        },
                    );
                }
                j = j + 1;
            }
            let mut context = String::from_str("gas_fills: agreement ");
            let aid = u64_to_string(a.id);
            context.append(aid.as_str());
            context.append(" has no rule for the requested gas type ");
            context.append(gas_type.as_str());
            Err(PricingError::MissingPrice { catalog_item_id: 0, context })
        },
        AgreementTerms::Tiered { .. } => {
            Err(
                PricingError::ConfigurationError {
                    message: String::from_str(
                        "vendor agreement for the shop has no per-fill terms",
                    ),
                    errors: vec![String::from_str("terms: expected per-fill gas terms")],
                },
            )
        },
    }
}

} // verus!
