use dive_pricing::agreement::{AgreementTerms, GasRule, VendorAgreement};
use dive_pricing::boat::{calculate_boat_cost, compute_overage_count};
use dive_pricing::errors::PricingError;
use dive_pricing::gas::calculate_gas_fills;
use dive_pricing::resolver::Scope;
use dive_pricing::totals::{
    calculate_totals, AllocationKind, EquipmentRentalInput, PricingLineInput,
};

const SITE_CT: u64 = 21;
const ORG_CT: u64 = 22;

fn tiered_agreement(id: u64, scope: Scope, base: i64, included: u32, rate: i64) -> VendorAgreement {
    VendorAgreement {
        id,
        scope,
        terms: AgreementTerms::Tiered {
            base_cost: base,
            included_divers: included,
            overage_rate: rate,
        },
        valid_from: 0,
        valid_to: None,
        created_seq: 1,
    }
}

fn gas_agreement(id: u64, scope: Scope, rules: Vec<GasRule>) -> VendorAgreement {
    VendorAgreement {
        id,
        scope,
        terms: AgreementTerms::PerFill { rules },
        valid_from: 0,
        valid_to: None,
        created_seq: 1,
    }
}

#[test]
fn overage_count_formula() {
    assert_eq!(compute_overage_count(6, 4), 2);
    assert_eq!(compute_overage_count(4, 4), 0);
    assert_eq!(compute_overage_count(2, 4), 0);
    assert_eq!(compute_overage_count(0, 0), 0);
    assert_eq!(compute_overage_count(10, 0), 10);
}

#[test]
fn boat_cost_tiered_overage() {
    // base 500.00 covering 4 divers, 50.00 per extra diver, 6 divers:
    // 2 over, total 600.00, 100.00 per diver.
    let site = Scope { scope_type: SITE_CT, scope_ref: 11 };
    let agreements = vec![tiered_agreement(77, site, 50000, 4, 5000)];
    let r = calculate_boat_cost(&agreements, &vec![site], 6, 50).unwrap();
    assert_eq!(r.overage_count, 2);
    assert_eq!(r.total, 60000);
    assert_eq!(r.per_diver, 10000);
    assert_eq!(r.base_cost, 50000);
    assert_eq!(r.included_divers, 4);
    assert_eq!(r.diver_count, 6);
    assert_eq!(r.agreement_id, 77);
    // the overage portion 100.00 split over 6 divers, rounded half up
    assert_eq!(r.overage_per_diver, 1667);
}

#[test]
fn boat_cost_no_overage_under_included() {
    let site = Scope { scope_type: SITE_CT, scope_ref: 11 };
    let agreements = vec![tiered_agreement(77, site, 50000, 4, 5000)];
    let r = calculate_boat_cost(&agreements, &vec![site], 3, 50).unwrap();
    assert_eq!(r.overage_count, 0);
    assert_eq!(r.total, 50000);
    assert_eq!(r.per_diver, 16667);
}

#[test]
fn boat_cost_missing_agreement() {
    let site = Scope { scope_type: SITE_CT, scope_ref: 11 };
    let agreements: Vec<VendorAgreement> = vec![];
    let e = calculate_boat_cost(&agreements, &vec![site], 6, 50).unwrap_err();
    match e {
        PricingError::MissingVendorAgreement { scope_type, scope_ref } => {
            assert_eq!(scope_type, SITE_CT);
            assert_eq!(scope_ref, 11);
        }
        other => panic!("expected MissingVendorAgreement, got {:?}", other),
    }
}

#[test]
fn boat_cost_expired_agreement_missing() {
    let site = Scope { scope_type: SITE_CT, scope_ref: 11 };
    let mut a = tiered_agreement(77, site, 50000, 4, 5000);
    a.valid_to = Some(40);
    let e = calculate_boat_cost(&vec![a], &vec![site], 6, 50).unwrap_err();
    assert!(matches!(e, PricingError::MissingVendorAgreement { .. }));
}

#[test]
fn boat_cost_zero_divers_is_configuration_error() {
    let site = Scope { scope_type: SITE_CT, scope_ref: 11 };
    let agreements = vec![tiered_agreement(77, site, 50000, 4, 5000)];
    let e = calculate_boat_cost(&agreements, &vec![site], 0, 50).unwrap_err();
    assert!(matches!(e, PricingError::ConfigurationError { .. }));
}

#[test]
fn boat_cost_falls_back_to_broader_scope() {
    let site = Scope { scope_type: SITE_CT, scope_ref: 11 };
    let operator = Scope { scope_type: ORG_CT, scope_ref: 3 };
    let agreements = vec![tiered_agreement(88, operator, 30000, 2, 1000)];
    let r = calculate_boat_cost(&agreements, &vec![site, operator], 2, 50).unwrap();
    assert_eq!(r.agreement_id, 88);
    assert_eq!(r.total, 30000);
}

#[test]
fn gas_fills_charge_from_agreement() {
    // 25.00 cost, 35.00 charge, 4 fills: 100.00 cost, 140.00 charge.
    let shop = Scope { scope_type: ORG_CT, scope_ref: 5 };
    let agreements = vec![gas_agreement(
        9,
        shop,
        vec![GasRule {
            gas_type: "air".to_string(),
            cost_per_fill: 2500,
            charge_per_fill: 3500,
            price_rule_id: 41,
        }],
    )];
    let r = calculate_gas_fills(&agreements, &vec![shop], &"air".to_string(), 4, None, 50)
        .unwrap();
    assert_eq!(r.cost_per_fill, 2500);
    assert_eq!(r.charge_per_fill, 3500);
    assert_eq!(r.total_cost, 10000);
    assert_eq!(r.total_charge, 14000);
    assert_eq!(r.fills_count, 4);
    assert_eq!(r.gas_type, "air");
    assert_eq!(r.agreement_id, 9);
    assert_eq!(r.price_rule_id, 41);
}

#[test]
fn gas_fills_override_replaces_charge_only() {
    let shop = Scope { scope_type: ORG_CT, scope_ref: 5 };
    let agreements = vec![gas_agreement(
        9,
        shop,
        vec![GasRule {
            gas_type: "nitrox".to_string(),
            cost_per_fill: 2500,
            charge_per_fill: 3500,
            price_rule_id: 42,
        }],
    )];
    let r = calculate_gas_fills(&agreements, &vec![shop], &"nitrox".to_string(), 3, Some(4000), 50)
        .unwrap();
    assert_eq!(r.cost_per_fill, 2500);
    assert_eq!(r.charge_per_fill, 4000);
    assert_eq!(r.total_cost, 7500);
    assert_eq!(r.total_charge, 12000);
}

#[test]
fn gas_fills_zero_fills() {
    let shop = Scope { scope_type: ORG_CT, scope_ref: 5 };
    let agreements = vec![gas_agreement(
        9,
        shop,
        vec![GasRule {
            gas_type: "air".to_string(),
            cost_per_fill: 2500,
            charge_per_fill: 3500,
            price_rule_id: 41,
        }],
    )];
    let r = calculate_gas_fills(&agreements, &vec![shop], &"air".to_string(), 0, None, 50)
        .unwrap();
    assert_eq!(r.total_cost, 0);
    assert_eq!(r.total_charge, 0);
}

#[test]
fn gas_fills_unknown_gas_type_is_missing_price() {
    let shop = Scope { scope_type: ORG_CT, scope_ref: 5 };
    let agreements = vec![gas_agreement(
        9,
        shop,
        vec![GasRule {
            gas_type: "air".to_string(),
            cost_per_fill: 2500,
            charge_per_fill: 3500,
            price_rule_id: 41,
        }],
    )];
    let e = calculate_gas_fills(&agreements, &vec![shop], &"trimix".to_string(), 2, None, 50)
        .unwrap_err();
    match e {
        PricingError::MissingPrice { context, .. } => {
            assert!(context.contains("trimix"));
            assert!(context.contains("9"));
        }
        other => panic!("expected MissingPrice, got {:?}", other),
    }
}

#[test]
fn gas_fills_no_agreement_is_missing_vendor_agreement() {
    let shop = Scope { scope_type: ORG_CT, scope_ref: 5 };
    let e = calculate_gas_fills(&vec![], &vec![shop], &"air".to_string(), 2, None, 50)
        .unwrap_err();
    assert!(matches!(
        e,
        PricingError::MissingVendorAgreement { scope_type: ORG_CT, scope_ref: 5 }
    ));
}

#[test]
fn totals_mixed_lines_and_rentals() {
    let lines = vec![
        PricingLineInput {
            key: "boat".to_string(),
            allocation: AllocationKind::Shared,
            shop_cost_amount: 30000,
            customer_charge_amount: 45000,
        },
        PricingLineInput {
            key: "guide".to_string(),
            allocation: AllocationKind::PerDiver,
            shop_cost_amount: 2000,
            customer_charge_amount: 3500,
        },
    ];
    let rentals = vec![EquipmentRentalInput {
        unit_cost_amount: 500,
        unit_charge_amount: 1000,
        quantity: 3,
    }];
    let r = calculate_totals(&lines, 3, Some(&rentals)).unwrap();
    assert_eq!(r.shared_cost, 31500); // 300.00 + 3 * 5.00
    assert_eq!(r.shared_charge, 48000); // 450.00 + 3 * 10.00
    assert_eq!(r.per_diver_cost, 2000);
    assert_eq!(r.per_diver_charge, 3500);
    assert_eq!(r.shared_cost_per_diver, 10500);
    assert_eq!(r.shared_charge_per_diver, 16000);
    assert_eq!(r.total_cost_per_diver, 12500);
    assert_eq!(r.total_charge_per_diver, 19500);
    assert_eq!(r.margin_per_diver, 7000);
    assert_eq!(r.diver_count, 3);
}

#[test]
fn totals_rounding_applied_once_per_shared_total() {
    // shared 100.00 over 3 divers: per-diver share rounds once, to 33.33
    let lines = vec![PricingLineInput {
        key: "boat".to_string(),
        allocation: AllocationKind::Shared,
        shop_cost_amount: 10000,
        customer_charge_amount: 20000,
    }];
    let r = calculate_totals(&lines, 3, None).unwrap();
    assert_eq!(r.shared_cost_per_diver, 3333);
    assert_eq!(r.shared_charge_per_diver, 6667);
    assert_eq!(r.margin_per_diver, 3334);
}

#[test]
fn totals_empty_lines() {
    let r = calculate_totals(&vec![], 2, None).unwrap();
    assert_eq!(r.shared_cost, 0);
    assert_eq!(r.total_cost_per_diver, 0);
    assert_eq!(r.margin_per_diver, 0);
}

#[test]
fn totals_zero_divers_is_configuration_error() {
    let e = calculate_totals(&vec![], 0, None).unwrap_err();
    assert!(matches!(e, PricingError::ConfigurationError { .. }));
}

#[test]
fn totals_negative_amount_is_configuration_error() {
    let lines = vec![PricingLineInput {
        key: "boat".to_string(),
        allocation: AllocationKind::Shared,
        shop_cost_amount: -1,
        customer_charge_amount: 0,
    }];
    let e = calculate_totals(&lines, 2, None).unwrap_err();
    assert!(matches!(e, PricingError::ConfigurationError { .. }));
}

#[test]
fn totals_overflow_is_configuration_error() {
    let lines = vec![
        PricingLineInput {
            key: "a".to_string(),
            allocation: AllocationKind::Shared,
            shop_cost_amount: i64::MAX,
            customer_charge_amount: 0,
        },
        PricingLineInput {
            key: "b".to_string(),
            allocation: AllocationKind::Shared,
            shop_cost_amount: i64::MAX,
            customer_charge_amount: 0,
        },
    ];
    let e = calculate_totals(&lines, 2, None).unwrap_err();
    assert!(matches!(e, PricingError::ConfigurationError { .. }));
}
