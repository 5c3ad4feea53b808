//! Scope resolver: finds the most-specific valid price rule for a catalog
//! item given an ordered chain of scopes and a point in time.
//!
//! Scopes are evaluated most-specific to least-specific, short-circuiting at
//! the first scope that has a rule valid at the as-of time. When several
//! rules at one scope are valid simultaneously, the most recently created
//! wins (largest creation sequence number; the earliest such rule on a tie).
//! Resolution never falls back to a default value: when no scope yields a
//! match the result is `MissingPrice` naming the catalog item.

use vstd::prelude::*;
use vstd::string::StringExecFns;

use crate::digits::u64_to_string;
use crate::errors::PricingError;

verus! {

/// The entity a price or cost rule is attached to, expressed generically as
/// a stable content-type id plus the id of the row of that type.
#[derive(Debug, Clone, Copy, PartialEq, Eq, Structural)]
pub struct Scope {
    /// Stable content-type id of the entity kind (agreement, party, shop, …).
    pub scope_type: u64,
    /// Id of the scoped entity.
    pub scope_ref: u64,
}

/// A price rule row, read from the authoritative store. Amounts are exact
/// minor-unit integers; the validity window is `[valid_from, valid_to)` over
/// as-of timestamps, with `valid_to == None` meaning open-ended.
#[derive(Debug, Clone)]
pub struct PriceRule {
    /// Id of this rule row.
    pub id: u64,
    /// Catalog item the rule prices.
    pub catalog_item_id: u64,
    /// Scope the rule is attached to.
    pub scope: Scope,
    /// Cost to the operator, if the rule carries one.
    pub cost_minor: Option<i64>,
    /// Charge to the customer; mandatory.
    pub charge_minor: i64,
    /// Currency code of both amounts.
    pub currency: String,
    /// Start of the validity window (inclusive).
    pub valid_from: i64,
    /// End of the validity window (exclusive); `None` is open-ended.
    pub valid_to: Option<i64>,
    /// Creation sequence number; larger means created later.
    pub created_seq: u64,
}

/// Outcome of a successful resolution.
#[derive(Debug, Clone)]
pub struct PricingResolution {
    /// Customer charge in minor units.
    pub charge_amount: i64,
    /// Currency of the charge.
    pub charge_currency: String,
    /// Operator cost in minor units, when the rule carries one.
    pub cost_amount: Option<i64>,
    /// Currency of the cost; present exactly when the cost is.
    pub cost_currency: Option<String>,
    /// Id of the selected rule.
    pub price_rule_id: u64,
    /// Whether the rule carries a cost.
    pub has_cost: bool,
}

/// Whether a rule's validity window `[valid_from, valid_to)` contains the
/// as-of time.
pub open spec fn window_contains(r: PriceRule, as_of: int) -> bool {
    &&& r.valid_from <= as_of
    &&& match r.valid_to {
        Some(t) => as_of < t,
        None => true,
    }
}

/// Whether a rule prices the given catalog item at the given scope and is
/// valid at the as-of time.
pub open spec fn rule_matches(r: PriceRule, item: u64, s: Scope, as_of: int) -> bool {
    &&& r.catalog_item_id == item
    &&& r.scope == s
    &&& window_contains(r, as_of)
}

/// Whether any rule in the sequence matches the item at the scope.
pub open spec fn scope_has_match(rules: Seq<PriceRule>, item: u64, s: Scope, as_of: int) -> bool {
    exists|i: int| 0 <= i < rules.len() && rule_matches(rules[i], item, s, as_of)
}

/// Whether `res` carries exactly the amounts, currency and id of rule `r`.
pub open spec fn resolution_of(res: PricingResolution, r: PriceRule) -> bool {
    &&& res.charge_amount == r.charge_minor
    &&& res.charge_currency@ == r.currency@
    &&& res.cost_amount == r.cost_minor
    &&& res.has_cost == (r.cost_minor is Some)
    &&& match res.cost_currency {
        Some(c) => r.cost_minor is Some && c@ == r.currency@,
        None => r.cost_minor is None,
    }
    &&& res.price_rule_id == r.id
}

/// Whether index `i` selects the winning rule for the item at scope `s`:
/// it matches, no matching rule was created later, and no earlier-indexed
/// matching rule ties its creation sequence number.
pub open spec fn is_best_match(
    rules: Seq<PriceRule>,
    item: u64,
    s: Scope,
    as_of: int,
    i: int,
) -> bool {
    &&& 0 <= i < rules.len()
    &&& rule_matches(rules[i], item, s, as_of)
    &&& forall|j: int|
        0 <= j < rules.len() && rule_matches(rules[j], item, s, as_of)
            ==> rules[j].created_seq <= rules[i].created_seq
    &&& forall|j: int|
        0 <= j < i && rule_matches(rules[j], item, s, as_of) ==> rules[j].created_seq
            < rules[i].created_seq
}

/// Whether `res` is the correct resolution of the item through scope `k` of
/// the chain: every more-specific scope has no valid rule, and `res`
/// carries the winning rule at scope `k`.
pub open spec fn resolved_at_scope(
    scopes: Seq<Scope>,
    rules: Seq<PriceRule>,
    item: u64,
    as_of: int,
    res: PricingResolution,
    k: int,
) -> bool {
    &&& 0 <= k < scopes.len()
    &&& forall|k2: int| 0 <= k2 < k ==> !scope_has_match(rules, item, scopes[k2], as_of)
    &&& exists|i: int|
        #[trigger] is_best_match(rules, item, scopes[k], as_of, i) && resolution_of(res, rules[i])
}

/// Finds the winning rule for the item at one scope: the most recently
/// created rule valid at `as_of`, the earliest-indexed one on a tie.
pub fn best_rule_at_scope(rules: &Vec<PriceRule>, item: u64, scope: &Scope, as_of: i64) -> (r:
    Option<usize>)
    ensures
        match r {
            Some(i) => is_best_match(rules@, item, *scope, as_of as int, i as int),
            None => !scope_has_match(rules@, item, *scope, as_of as int),
        },
{
    let mut best: Option<usize> = None;
    let mut k: usize = 0;
    while k < rules.len()
        invariant
            k <= rules.len(),
            match best {
                Some(i) => {
                    &&& i < k
                    &&& rule_matches(rules@[i as int], item, *scope, as_of as int)
                    &&& forall|j: int|
                        0 <= j < k && rule_matches(rules@[j], item, *scope, as_of as int)
                            ==> rules@[j].created_seq <= rules@[i as int].created_seq
                    &&& forall|j: int|
                        0 <= j < i && rule_matches(rules@[j], item, *scope, as_of as int)
                            ==> rules@[j].created_seq < rules@[i as int].created_seq
                },
                None => forall|j: int|
                    0 <= j < k ==> !rule_matches(rules@[j], item, *scope, as_of as int),
            },
        decreases rules.len() - k,
    {
        let rule = &rules[k];
        let valid_here = rule.valid_from <= as_of && match rule.valid_to {
            Some(t) => as_of < t,
            None => true,
        };
        if rule.catalog_item_id == item && rule.scope == *scope && valid_here {
            match best {
                Some(i) => {
                    if rules[i].created_seq < rule.created_seq {
                        best = Some(k);
                    }
                },
                None => {
                    best = Some(k);
                },
            }
        }
        k = k + 1;
    }
    best
}

/// Resolves the price of a catalog item over an ordered scope chain,
/// most-specific scope first.
///
/// The result comes from the first scope in `scopes` that has a rule valid
/// at `as_of`; within that scope the most recently created valid rule wins.
/// Every scope earlier in the chain is guaranteed to have no valid rule.
/// When no scope yields a match, fails with `MissingPrice` naming the
/// catalog item, never a default value.
pub fn resolve_price_rule(
    catalog_item_id: u64,
    scopes: &Vec<Scope>,
    as_of: i64,
    rules: &Vec<PriceRule>,
) -> (r: Result<PricingResolution, PricingError>)
    ensures
        match r {
            Ok(res) => exists|k: int|
                #[trigger] resolved_at_scope(
                    scopes@,
                    rules@,
                    catalog_item_id,
                    as_of as int,
                    res,
                    k,
                ),
            Err(e) => {
                &&& forall|k: int|
                    0 <= k < scopes@.len() ==> !scope_has_match(
                        rules@,
                        catalog_item_id,
                        scopes@[k],
                        as_of as int,
                    )
                &&& e matches PricingError::MissingPrice { catalog_item_id: c, .. }
                    && c == catalog_item_id
            },
        },
{
    let mut k: usize = 0;
    while k < scopes.len()
        invariant
            k <= scopes.len(),
            forall|k2: int|
                0 <= k2 < k ==> !scope_has_match(rules@, catalog_item_id, scopes@[k2], as_of as int),
        decreases scopes.len() - k,
    {
        match best_rule_at_scope(rules, catalog_item_id, &scopes[k], as_of) {
            Some(i) => {
                let rule = &rules[i];
                let has_cost = rule.cost_minor.is_some();
                let cost_currency: Option<String> = if has_cost {
                    Some(rule.currency.clone())
                } else {
                    None
                };
                let res = PricingResolution {
                    charge_amount: rule.charge_minor,
                    charge_currency: rule.currency.clone(),
                    cost_amount: rule.cost_minor,
                    cost_currency,
                    price_rule_id: rule.id,
                    has_cost,
                };
                proof {
                    assert(resolution_of(res, rules@[i as int]));
                    assert(resolved_at_scope(
                        scopes@,
                        rules@,
                        catalog_item_id,
                        as_of as int,
                        res,
                        k as int,
                    ));
                }
                return Ok(res);
            },
            None => {
            },
        }
        k = k + 1;
    }
    let mut context = String::from_str("no valid price rule at any attempted scope; scopes tried:");
    let mut k2: usize = 0;
    while k2 < scopes.len()
        decreases scopes.len() - k2,
    {
        context.append(" ");
        let t = u64_to_string(scopes[k2].scope_type);
        context.append(t.as_str());
        context.append(":");
        let rf = u64_to_string(scopes[k2].scope_ref);
        context.append(rf.as_str());
        k2 = k2 + 1;
    }
    Err(PricingError::MissingPrice { catalog_item_id, context })
}

/// The scope fallback chain for component pricing: explicit agreement,
/// then party-level override, then shop-level default, keeping only the
/// scopes that were supplied.
pub open spec fn scope_chain(
    shop: Scope,
    party: Option<Scope>,
    agreement: Option<Scope>,
) -> Seq<Scope> {
    (match agreement {
        Some(a) => seq![a],
        None => seq![],
    }) + (match party {
        Some(p) => seq![p],
        None => seq![],
    }) + seq![shop]
}

/// Builds the ordered scope chain, most-specific scope first.
pub fn pricing_scope_chain(shop: Scope, party: Option<Scope>, agreement: Option<Scope>) -> (r: Vec<
    Scope,
>)
    ensures
        r@ == scope_chain(shop, party, agreement),
{
    let mut chain: Vec<Scope> = Vec::new();
    match agreement {
        Some(a) => chain.push(a),
        None => (),
    }
    match party {
        Some(p) => chain.push(p),
        None => (),
    }
    chain.push(shop);
    proof {
        assert(chain@ =~= scope_chain(shop, party, agreement));
    }
    chain
}

/// Resolves a catalog item's price over the standard scope chain: explicit
/// agreement first, then party, then shop, short-circuiting at the first
/// scope with a rule valid at `as_of`.
pub fn resolve_component_pricing(
    catalog_item_id: u64,
    shop: Scope,
    party: Option<Scope>,
    agreement: Option<Scope>,
    as_of: i64,
    rules: &Vec<PriceRule>,
) -> (r: Result<PricingResolution, PricingError>)
    ensures
        match r {
            Ok(res) => exists|k: int|
                #[trigger] resolved_at_scope(
                    scope_chain(shop, party, agreement),
                    rules@,
                    catalog_item_id,
                    as_of as int,
                    res,
                    k,
                ),
            Err(e) => {
                &&& forall|k: int|
                    0 <= k < scope_chain(shop, party, agreement).len() ==> !scope_has_match(
                        rules@,
                        catalog_item_id,
                        scope_chain(shop, party, agreement)[k],
                        as_of as int,
                    )
                &&& e matches PricingError::MissingPrice { catalog_item_id: c, .. }
                    && c == catalog_item_id
            },
        },
{
    let scopes = pricing_scope_chain(shop, party, agreement);
    resolve_price_rule(catalog_item_id, &scopes, as_of, rules)
}

/// Resolver precedence: when the most specific scope of the chain has a
/// rule valid at the as-of time, a successful resolution comes from that
/// scope — a broader scope never wins over it.
pub proof fn lemma_most_specific_scope_wins(
    scopes: Seq<Scope>,
    rules: Seq<PriceRule>,
    item: u64,
    as_of: int,
    res: PricingResolution,
)
    requires
        scopes.len() >= 1,
        exists|k: int| #[trigger] resolved_at_scope(scopes, rules, item, as_of, res, k),
        scope_has_match(rules, item, scopes[0], as_of),
    ensures
        resolved_at_scope(scopes, rules, item, as_of, res, 0),
{
    let k = choose|k: int| #[trigger] resolved_at_scope(scopes, rules, item, as_of, res, k);
    if k != 0 {
        assert(!scope_has_match(rules, item, scopes[0], as_of));
    }
}

/// Resolution is deterministic: at one scope there is at most one winning
/// rule index for given inputs, so the selected rule is a function of
/// `(rules, item, scope, as_of)`.
pub proof fn lemma_best_match_unique(
    rules: Seq<PriceRule>,
    item: u64,
    s: Scope,
    as_of: int,
    i1: int,
    i2: int,
)
    requires
        is_best_match(rules, item, s, as_of, i1),
        is_best_match(rules, item, s, as_of, i2),
    ensures
        i1 == i2,
{
}

/// Time validity: a rule whose window excludes the as-of time is never
/// selected — the winning rule at any scope is valid at that time.
pub proof fn lemma_no_expired_rule_selected(
    rules: Seq<PriceRule>,
    item: u64,
    s: Scope,
    as_of: int,
    i: int,
)
    requires
        is_best_match(rules, item, s, as_of, i),
    ensures
        window_contains(rules[i], as_of),
{
}

} // verus!
