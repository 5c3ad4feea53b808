use dive_pricing::errors::PricingError;
use dive_pricing::resolver::{
    resolve_component_pricing, resolve_price_rule, PriceRule, Scope,
};

fn rule(
    id: u64,
    item: u64,
    scope: Scope,
    charge: i64,
    cost: Option<i64>,
    from: i64,
    to: Option<i64>,
    seq: u64,
) -> PriceRule {
    PriceRule {
        id,
        catalog_item_id: item,
        scope,
        cost_minor: cost,
        charge_minor: charge,
        currency: "USD".to_string(),
        valid_from: from,
        valid_to: to,
        created_seq: seq,
    }
}

const AGREEMENT_CT: u64 = 31;
const PARTY_CT: u64 = 32;
const SHOP_CT: u64 = 33;

#[test]
fn agreement_scope_beats_shop_scope() {
    let shop = Scope { scope_type: SHOP_CT, scope_ref: 7 };
    let agreement = Scope { scope_type: AGREEMENT_CT, scope_ref: 4 };
    let rules = vec![
        rule(1, 100, shop, 5000, None, 0, None, 1),
        rule(2, 100, agreement, 4000, Some(3000), 0, None, 2),
    ];
    let r = resolve_component_pricing(100, shop, None, Some(agreement), 50, &rules).unwrap();
    assert_eq!(r.price_rule_id, 2);
    assert_eq!(r.charge_amount, 4000);
    assert!(r.has_cost);
    assert_eq!(r.cost_amount, Some(3000));
    assert_eq!(r.cost_currency.as_deref(), Some("USD"));
}

#[test]
fn expired_rule_is_never_selected() {
    let shop = Scope { scope_type: SHOP_CT, scope_ref: 7 };
    let agreement = Scope { scope_type: AGREEMENT_CT, scope_ref: 4 };
    // the agreement rule's window [0, 40) excludes as_of = 50
    let rules = vec![
        rule(1, 100, shop, 5000, None, 0, None, 1),
        rule(2, 100, agreement, 4000, None, 0, Some(40), 2),
    ];
    let r = resolve_component_pricing(100, shop, None, Some(agreement), 50, &rules).unwrap();
    assert_eq!(r.price_rule_id, 1);
    assert_eq!(r.charge_amount, 5000);
    assert!(!r.has_cost);
    assert_eq!(r.cost_amount, None);
}

#[test]
fn rule_not_yet_valid_is_never_selected() {
    let shop = Scope { scope_type: SHOP_CT, scope_ref: 7 };
    let rules = vec![
        rule(1, 100, shop, 5000, None, 100, None, 5),
        rule(2, 100, shop, 4000, None, 0, None, 1),
    ];
    let r = resolve_price_rule(100, &vec![shop], 50, &rules).unwrap();
    assert_eq!(r.price_rule_id, 2);
}

#[test]
fn most_recently_created_rule_wins_within_scope() {
    let shop = Scope { scope_type: SHOP_CT, scope_ref: 7 };
    let rules = vec![
        rule(1, 100, shop, 5000, None, 0, None, 1),
        rule(2, 100, shop, 6000, None, 0, None, 9),
        rule(3, 100, shop, 7000, None, 0, None, 4),
    ];
    let r = resolve_price_rule(100, &vec![shop], 50, &rules).unwrap();
    assert_eq!(r.price_rule_id, 2);
    assert_eq!(r.charge_amount, 6000);
}

#[test]
fn party_scope_between_agreement_and_shop() {
    let shop = Scope { scope_type: SHOP_CT, scope_ref: 7 };
    let party = Scope { scope_type: PARTY_CT, scope_ref: 9 };
    let rules = vec![
        rule(1, 100, shop, 5000, None, 0, None, 3),
        rule(2, 100, party, 4500, None, 0, None, 1),
    ];
    // no agreement supplied: the party-level override wins over the shop default
    let r = resolve_component_pricing(100, shop, Some(party), None, 50, &rules).unwrap();
    assert_eq!(r.price_rule_id, 2);
}

#[test]
fn missing_price_names_the_catalog_item() {
    let shop = Scope { scope_type: SHOP_CT, scope_ref: 7 };
    let rules: Vec<PriceRule> = vec![];
    let e = resolve_component_pricing(4242, shop, None, None, 50, &rules).unwrap_err();
    match e {
        PricingError::MissingPrice { catalog_item_id, context } => {
            assert_eq!(catalog_item_id, 4242);
            assert!(context.contains(&format!("{}:{}", SHOP_CT, 7)));
        }
        other => panic!("expected MissingPrice, got {:?}", other),
    }
}

#[test]
fn wrong_catalog_item_is_not_matched() {
    let shop = Scope { scope_type: SHOP_CT, scope_ref: 7 };
    let rules = vec![rule(1, 999, shop, 5000, None, 0, None, 1)];
    let e = resolve_price_rule(100, &vec![shop], 50, &rules).unwrap_err();
    assert!(matches!(e, PricingError::MissingPrice { catalog_item_id: 100, .. }));
}
