//! Vendor agreements: tiered or per-fill cost terms attached to a scope,
//! with a validity window, and their resolution over a scope chain.
//!
//! Agreement rows are owned and mutated by the external write system; this
//! engine only reads them. Resolution mirrors the price-rule resolver: the
//! chain is walked most-specific scope first, and at one scope the most
//! recently created covering agreement wins (earliest on a tie).

use vstd::prelude::*;

use crate::errors::PricingError;
use crate::resolver::Scope;

verus! {

/// Per-fill cost and charge for one gas type under an agreement.
#[derive(Debug, Clone)]
pub struct GasRule {
    /// Gas type this rule prices (e.g. air, nitrox).
    pub gas_type: String,
    /// Operator cost for one fill, in minor units.
    pub cost_per_fill: i64,
    /// Customer charge for one fill, in minor units.
    pub charge_per_fill: i64,
    /// Id of the underlying price-rule row.
    pub price_rule_id: u64,
}

/// The cost terms an agreement carries: tiered base-plus-overage pricing,
/// or a table of per-fill gas prices.
#[derive(Debug, Clone)]
pub enum AgreementTerms {
    /// Base cost covering a number of divers, plus a rate per extra diver.
    Tiered { base_cost: i64, included_divers: u32, overage_rate: i64 },
    /// Per-fill prices by gas type.
    PerFill { rules: Vec<GasRule> },
}

/// A vendor agreement row, read from the authoritative store. The validity
/// window is `[valid_from, valid_to)`, with `valid_to == None` open-ended.
#[derive(Debug, Clone)]
pub struct VendorAgreement {
    /// Id of this agreement row.
    pub id: u64,
    /// Scope the agreement is attached to.
    pub scope: Scope,
    /// The cost terms.
    pub terms: AgreementTerms,
    /// Start of the validity window (inclusive).
    pub valid_from: i64,
    /// End of the validity window (exclusive); `None` is open-ended.
    pub valid_to: Option<i64>,
    /// Creation sequence number; larger means created later.
    pub created_seq: u64,
}

/// Whether an agreement is attached to the scope and valid at the as-of
/// time.
pub open spec fn agreement_covers(a: VendorAgreement, s: Scope, as_of: int) -> bool {
    &&& a.scope == s
    &&& a.valid_from <= as_of
    &&& match a.valid_to {
        Some(t) => as_of < t,
        None => true,
    }
}

/// Whether any agreement in the sequence covers the scope at the as-of
/// time.
pub open spec fn scope_has_agreement(
    agreements: Seq<VendorAgreement>,
    s: Scope,
    as_of: int,
) -> bool {
    exists|i: int| 0 <= i < agreements.len() && agreement_covers(agreements[i], s, as_of)
}

/// Whether index `i` selects the winning agreement for scope `s`: it
/// covers the scope, none covering it was created later, and no
/// earlier-indexed covering agreement ties its creation sequence number.
pub open spec fn is_best_agreement(
    agreements: Seq<VendorAgreement>,
    s: Scope,
    as_of: int,
    i: int,
) -> bool {
    &&& 0 <= i < agreements.len()
    &&& agreement_covers(agreements[i], s, as_of)
    &&& forall|j: int|
        0 <= j < agreements.len() && agreement_covers(agreements[j], s, as_of)
            ==> agreements[j].created_seq <= agreements[i].created_seq
    &&& forall|j: int|
        0 <= j < i && agreement_covers(agreements[j], s, as_of) ==> agreements[j].created_seq
            < agreements[i].created_seq
}

/// Whether index `i` is the agreement the chain resolves to: some scope of
/// the chain is covered, every more-specific scope is not, and `i` is the
/// winner at the first covered scope.
pub open spec fn agreement_resolved(
    scopes: Seq<Scope>,
    agreements: Seq<VendorAgreement>,
    as_of: int,
    i: int,
) -> bool {
    exists|k: int|
        {
            &&& 0 <= k < scopes.len()
            &&& (forall|k2: int| 0 <= k2 < k ==> !scope_has_agreement(agreements, scopes[k2], as_of))
            &&& #[trigger] is_best_agreement(agreements, scopes[k], as_of, i)
        }
}

/// Finds the winning agreement for one scope: the most recently created
/// covering agreement, the earliest-indexed one on a tie.
fn best_agreement_at_scope(agreements: &Vec<VendorAgreement>, scope: &Scope, as_of: i64) -> (r:
    Option<usize>)
    ensures
        match r {
            Some(i) => is_best_agreement(agreements@, *scope, as_of as int, i as int),
            None => !scope_has_agreement(agreements@, *scope, as_of as int),
        },
{
    let mut best: Option<usize> = None;
    let mut k: usize = 0;
    while k < agreements.len()
        invariant
            k <= agreements.len(),
            match best {
                Some(i) => {
                    &&& i < k
                    &&& agreement_covers(agreements@[i as int], *scope, as_of as int)
                    &&& forall|j: int|
                        0 <= j < k && agreement_covers(agreements@[j], *scope, as_of as int)
                            ==> agreements@[j].created_seq <= agreements@[i as int].created_seq
                    &&& forall|j: int|
                        0 <= j < i && agreement_covers(agreements@[j], *scope, as_of as int)
                            ==> agreements@[j].created_seq < agreements@[i as int].created_seq
                },
                None => forall|j: int|
                    0 <= j < k ==> !agreement_covers(agreements@[j], *scope, as_of as int),
            },
        decreases agreements.len() - k,
    {
        let a = &agreements[k];
        let valid_here = a.valid_from <= as_of && match a.valid_to {
            Some(t) => as_of < t,
            None => true,
        };
        if a.scope == *scope && valid_here {
            match best {
                Some(i) => {
                    if agreements[i].created_seq < a.created_seq {
                        best = Some(k);
                    }
                },
                None => {
                    best = Some(k);
                },
            }
        }
        k = k + 1;
    }
    best
}

/// Resolves the vendor agreement for an ordered scope chain, most-specific
/// scope first, short-circuiting at the first scope any agreement covers.
///
/// Fails with `MissingVendorAgreement` naming the most specific scope when
/// no agreement covers any scope of the chain at `as_of`.
pub fn resolve_vendor_agreement(
    scopes: &Vec<Scope>,
    as_of: i64,
    agreements: &Vec<VendorAgreement>,
) -> (r: Result<usize, PricingError>)
    requires
        scopes@.len() >= 1,
    ensures
        match r {
            Ok(i) => agreement_resolved(scopes@, agreements@, as_of as int, i as int),
            Err(e) => {
                &&& forall|k: int|
                    0 <= k < scopes@.len() ==> !scope_has_agreement(
                        agreements@,
                        scopes@[k],
                        as_of as int,
                    )
                &&& e matches PricingError::MissingVendorAgreement { scope_type, scope_ref }
                    && scope_type == scopes@[0].scope_type && scope_ref == scopes@[0].scope_ref
            },
        },
{
    let mut k: usize = 0;
    while k < scopes.len()
        invariant
            k <= scopes.len(),
            forall|k2: int|
                0 <= k2 < k ==> !scope_has_agreement(agreements@, scopes@[k2], as_of as int),
        decreases scopes.len() - k,
    {
        match best_agreement_at_scope(agreements, &scopes[k], as_of) {
            Some(i) => {
                proof {
                    assert(agreement_resolved(scopes@, agreements@, as_of as int, i as int));
                }
                return Ok(i);
            },
            None => {
            },
        }
        k = k + 1;
    }
    Err(
        PricingError::MissingVendorAgreement {
            scope_type: scopes[0].scope_type,
            scope_ref: scopes[0].scope_ref,
        },
    )
}

} // verus!
