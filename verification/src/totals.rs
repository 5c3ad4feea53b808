//! Totals aggregator: combines shared and per-diver pricing lines and
//! equipment rentals into final per-diver cost, charge and margin.
//!
//! Per-diver lines contribute directly; shared lines and rental components
//! are summed exactly and divided once, by the centralized round-half-up
//! policy, so no rounding drift compounds across partial sums.

use vstd::prelude::*;
use vstd::string::StringExecFns;

use crate::errors::PricingError;
use crate::money::{round_half_up, div_round_half_up};

verus! {

/// How a pricing line is split across divers.
#[derive(Debug, Clone, Copy, PartialEq, Eq, Structural)]
pub enum AllocationKind {
    /// One amount shared by the whole group, split by the exact-sum rule.
    Shared,
    /// An amount each diver pays in full.
    PerDiver,
}

/// One pricing line: a keyed cost/charge pair, tagged shared or per-diver.
/// Amounts are minor units in the calculation's single currency.
#[derive(Debug, Clone)]
pub struct PricingLineInput {
    /// Caller's identifier for the line; not interpreted.
    pub key: String,
    /// How the line is split across divers.
    pub allocation: AllocationKind,
    /// Cost to the operator, in minor units.
    pub shop_cost_amount: i64,
    /// Charge to the customer, in minor units.
    pub customer_charge_amount: i64,
}

/// One equipment rental: per-unit cost and charge, and a quantity. Rental
/// totals are shared components, split like shared lines.
#[derive(Debug, Clone)]
pub struct EquipmentRentalInput {
    /// Cost to the operator for one unit, in minor units.
    pub unit_cost_amount: i64,
    /// Charge to the customer for one unit, in minor units.
    pub unit_charge_amount: i64,
    /// Number of units rented.
    pub quantity: u32,
}

/// A line's contribution to the sum selected by `kind` and `charge`: its
/// charge or cost when its allocation matches `kind`, else nothing.
pub open spec fn line_term(l: PricingLineInput, kind: AllocationKind, charge: bool) -> int {
    if l.allocation == kind {
        if charge {
            l.customer_charge_amount as int
        } else {
            l.shop_cost_amount as int
        }
    } else {
        0
    }
}

/// Exact sum of the selected contributions of a line sequence.
pub open spec fn lines_sum(lines: Seq<PricingLineInput>, kind: AllocationKind, charge: bool) -> int
    decreases lines.len(),
{
    if lines.len() == 0 {
        0
    } else {
        lines_sum(lines.drop_last(), kind, charge) + line_term(lines.last(), kind, charge)
    }
}

/// A rental's contribution: per-unit amount times quantity, exactly.
pub open spec fn rental_term(r: EquipmentRentalInput, charge: bool) -> int {
    if charge {
        r.unit_charge_amount * r.quantity
    } else {
        r.unit_cost_amount * r.quantity
    }
}

/// Exact sum of the rental contributions of a rental sequence.
pub open spec fn rentals_sum(rs: Seq<EquipmentRentalInput>, charge: bool) -> int
    decreases rs.len(),
{
    if rs.len() == 0 {
        0
    } else {
        rentals_sum(rs.drop_last(), charge) + rental_term(rs.last(), charge)
    }
}

/// Extending a prefix by one line adds that line's contribution.
proof fn lemma_lines_sum_step(lines: Seq<PricingLineInput>, k: int, kind: AllocationKind, charge: bool)
    requires
        0 <= k < lines.len(),
    ensures
        lines_sum(lines.take(k + 1), kind, charge) == lines_sum(lines.take(k), kind, charge)
            + line_term(lines[k], kind, charge),
{
    assert(lines.take(k + 1).drop_last() =~= lines.take(k));
}

/// With no negative amounts, every prefix sum is at most the full sum.
proof fn lemma_lines_sum_mono(lines: Seq<PricingLineInput>, k: int, kind: AllocationKind, charge: bool)
    requires
        0 <= k <= lines.len(),
        lines_nonneg(lines),
    ensures
        lines_sum(lines.take(k), kind, charge) <= lines_sum(lines, kind, charge),
    decreases lines.len() - k,
{
    if k == lines.len() {
        assert(lines.take(k) =~= lines);
    } else {
        lemma_lines_sum_step(lines, k, kind, charge);
        lemma_lines_sum_mono(lines, k + 1, kind, charge);
    }
}

/// Extending a prefix by one rental adds that rental's contribution.
proof fn lemma_rentals_sum_step(rs: Seq<EquipmentRentalInput>, k: int, charge: bool)
    requires
        0 <= k < rs.len(),
    ensures
        rentals_sum(rs.take(k + 1), charge) == rentals_sum(rs.take(k), charge) + rental_term(
            rs[k],
            charge,
        ),
{
    assert(rs.take(k + 1).drop_last() =~= rs.take(k));
}

/// With no negative amounts, every prefix sum is at most the full sum.
proof fn lemma_rentals_sum_mono(rs: Seq<EquipmentRentalInput>, k: int, charge: bool)
    requires
        0 <= k <= rs.len(),
        rentals_nonneg(rs),
    ensures
        rentals_sum(rs.take(k), charge) <= rentals_sum(rs, charge),
    decreases rs.len() - k,
{
    if k == rs.len() {
        assert(rs.take(k) =~= rs);
    } else {
        lemma_rentals_sum_step(rs, k, charge);
        assert(rental_term(rs[k], true) >= 0 && rental_term(rs[k], false) >= 0)
            by (nonlinear_arith)
            requires
                rs[k].unit_cost_amount >= 0,
                rs[k].unit_charge_amount >= 0,
                rs[k].quantity >= 0,
        ;
        lemma_rentals_sum_mono(rs, k + 1, charge);
    }
}

/// With no negative amounts, a rental sum is non-negative.
proof fn lemma_rentals_sum_nonneg(rs: Seq<EquipmentRentalInput>, charge: bool)
    requires
        rentals_nonneg(rs),
    ensures
        rentals_sum(rs, charge) >= 0,
    decreases rs.len(),
{
    if rs.len() > 0 {
        assert(rentals_nonneg(rs.drop_last()));
        lemma_rentals_sum_nonneg(rs.drop_last(), charge);
        assert(rental_term(rs.last(), charge) >= 0) by (nonlinear_arith)
            requires
                rs.last().unit_cost_amount >= 0,
                rs.last().unit_charge_amount >= 0,
                rs.last().quantity >= 0,
        ;
    }
}

/// Whether every line amount is non-negative.
pub open spec fn lines_nonneg(lines: Seq<PricingLineInput>) -> bool {
    forall|i: int|
        0 <= i < lines.len() ==> #[trigger] lines[i].shop_cost_amount >= 0
            && lines[i].customer_charge_amount >= 0
}

/// Whether every rental amount is non-negative.
pub open spec fn rentals_nonneg(rs: Seq<EquipmentRentalInput>) -> bool {
    forall|i: int|
        0 <= i < rs.len() ==> #[trigger] rs[i].unit_cost_amount >= 0 && rs[i].unit_charge_amount
            >= 0
}

/// The exact shared total (lines plus rentals) on the cost or charge side.
pub open spec fn shared_total(
    lines: Seq<PricingLineInput>,
    rs: Seq<EquipmentRentalInput>,
    charge: bool,
) -> int {
    lines_sum(lines, AllocationKind::Shared, charge) + rentals_sum(rs, charge)
}

/// Whether all the aggregator's exact totals and rounded per-diver figures
/// stay in the representable amount range for the given diver count.
pub open spec fn totals_in_range(
    lines: Seq<PricingLineInput>,
    rs: Seq<EquipmentRentalInput>,
    diver_count: int,
) -> bool {
    &&& shared_total(lines, rs, false) <= i64::MAX
    &&& shared_total(lines, rs, true) <= i64::MAX
    &&& lines_sum(lines, AllocationKind::PerDiver, false) <= i64::MAX
    &&& lines_sum(lines, AllocationKind::PerDiver, true) <= i64::MAX
    &&& lines_sum(lines, AllocationKind::PerDiver, false) + round_half_up(
        shared_total(lines, rs, false),
        diver_count,
    ) <= i64::MAX
    &&& lines_sum(lines, AllocationKind::PerDiver, true) + round_half_up(
        shared_total(lines, rs, true),
        diver_count,
    ) <= i64::MAX
}

/// Whether the aggregator owes a result: a positive diver count, no
/// negative amounts, and totals in range.
pub open spec fn totals_inputs_ok(
    lines: Seq<PricingLineInput>,
    rs: Seq<EquipmentRentalInput>,
    diver_count: int,
) -> bool {
    &&& diver_count >= 1
    &&& lines_nonneg(lines)
    &&& rentals_nonneg(rs)
    &&& totals_in_range(lines, rs, diver_count)
}

/// Final per-diver totals. All amounts are minor units in the calculation's
/// single currency.
#[derive(Debug, Clone)]
pub struct PricingTotalsResult {
    /// Exact sum of shared line costs and rental costs.
    pub shared_cost: i64,
    /// Exact sum of shared line charges and rental charges.
    pub shared_charge: i64,
    /// Exact sum of per-diver line costs.
    pub per_diver_cost: i64,
    /// Exact sum of per-diver line charges.
    pub per_diver_charge: i64,
    /// `shared_cost / diver_count`, rounded half up.
    pub shared_cost_per_diver: i64,
    /// `shared_charge / diver_count`, rounded half up.
    pub shared_charge_per_diver: i64,
    /// `per_diver_cost + shared_cost_per_diver`.
    pub total_cost_per_diver: i64,
    /// `per_diver_charge + shared_charge_per_diver`.
    pub total_charge_per_diver: i64,
    /// `total_charge_per_diver - total_cost_per_diver`; may be negative.
    pub margin_per_diver: i64,
    /// The diver count supplied by the caller.
    pub diver_count: u32,
}

/// Whether `res` carries exactly the aggregator's figures for the inputs.
pub open spec fn totals_of(
    res: PricingTotalsResult,
    lines: Seq<PricingLineInput>,
    rs: Seq<EquipmentRentalInput>,
    diver_count: int,
) -> bool {
    &&& res.shared_cost == shared_total(lines, rs, false)
    &&& res.shared_charge == shared_total(lines, rs, true)
    &&& res.per_diver_cost == lines_sum(lines, AllocationKind::PerDiver, false)
    &&& res.per_diver_charge == lines_sum(lines, AllocationKind::PerDiver, true)
    &&& res.shared_cost_per_diver == round_half_up(shared_total(lines, rs, false), diver_count)
    &&& res.shared_charge_per_diver == round_half_up(shared_total(lines, rs, true), diver_count)
    &&& res.total_cost_per_diver == res.per_diver_cost + res.shared_cost_per_diver
    &&& res.total_charge_per_diver == res.per_diver_charge + res.shared_charge_per_diver
    &&& res.margin_per_diver == res.total_charge_per_diver - res.total_cost_per_diver
    &&& res.diver_count == diver_count
}

/// The error returned when a total leaves the representable range.
fn overflow_error() -> (e: PricingError)
    ensures
        e is ConfigurationError,
{
    PricingError::ConfigurationError {
        message: String::from_str("total amount out of range"),
        errors: vec![String::from_str("amounts: total out of range")],
    }
}

/// Combines pricing lines and equipment rentals into per-diver totals.
///
/// Sums are exact; rounding happens once, when each shared total is divided
/// by the diver count (round half up). Succeeds exactly when the diver
/// count is positive, no amount is negative, and every total stays in the
/// representable range; fails with `ConfigurationError` otherwise. All
/// amounts share the caller's single currency; no conversion occurs.
pub fn calculate_totals(
    lines: &Vec<PricingLineInput>,
    diver_count: u32,
    rentals: Option<&Vec<EquipmentRentalInput>>,
) -> (r: Result<PricingTotalsResult, PricingError>)
    ensures
        ({
            let rs = match rentals {
                Some(v) => v@,
                None => Seq::<EquipmentRentalInput>::empty(),
            };
            match r {
                Ok(res) => totals_inputs_ok(lines@, rs, diver_count as int) && totals_of(
                    res,
                    lines@,
                    rs,
                    diver_count as int,
                ),
                Err(e) => !totals_inputs_ok(lines@, rs, diver_count as int)
                    && e is ConfigurationError,
            }
        }),
{
    let ghost grs: Seq<EquipmentRentalInput> = match rentals {
        Some(v) => v@,
        None => Seq::<EquipmentRentalInput>::empty(),
    };
    if diver_count == 0 {
        return Err(
            PricingError::ConfigurationError {
                message: String::from_str("diver_count must be at least 1"),
                errors: vec![String::from_str("diver_count: must be at least 1")],
            },
        );
    }
    let mut i: usize = 0;
    while i < lines.len()
        invariant
            i <= lines.len(),
            forall|j: int|
                0 <= j < i ==> #[trigger] lines@[j].shop_cost_amount >= 0
                    && lines@[j].customer_charge_amount >= 0,
        decreases lines.len() - i,
    {
        if lines[i].shop_cost_amount < 0 || lines[i].customer_charge_amount < 0 {
            return Err(
                PricingError::ConfigurationError {
                    message: String::from_str("line amounts must not be negative"),
                    errors: vec![
                        String::from_str(
                            "shop_cost_amount, customer_charge_amount: must not be negative",
                        ),
                    ],
                },
            );
        }
        i = i + 1;
    }
    match rentals {
        Some(rs) => {
            let mut i2: usize = 0;
            while i2 < rs.len()
                invariant
                    i2 <= rs.len(),
                    rentals == Some(rs),
                    forall|j: int|
                        0 <= j < i2 ==> #[trigger] rs@[j].unit_cost_amount >= 0
                            && rs@[j].unit_charge_amount >= 0,
                decreases rs.len() - i2,
            {
                if rs[i2].unit_cost_amount < 0 || rs[i2].unit_charge_amount < 0 {
                    return Err(
                        PricingError::ConfigurationError {
                            message: String::from_str("rental amounts must not be negative"),
                            errors: vec![
                                String::from_str(
                                    "unit_cost_amount, unit_charge_amount: must not be negative",
                                ),
                            ],
                        },
                    );
                }
                i2 = i2 + 1;
            }
        },
        None => (),
    }
    let mut shared_cost: i64 = 0;
    let mut shared_charge: i64 = 0;
    let mut per_diver_cost: i64 = 0;
    let mut per_diver_charge: i64 = 0;
    let mut k: usize = 0;
    while k < lines.len()
        invariant
            k <= lines.len(),
            lines_nonneg(lines@),
            rentals_nonneg(grs),
            grs == (match rentals {
                Some(v) => v@,
                None => Seq::<EquipmentRentalInput>::empty(),
            }),
            shared_cost == lines_sum(lines@.take(k as int), AllocationKind::Shared, false),
            shared_charge == lines_sum(lines@.take(k as int), AllocationKind::Shared, true),
            per_diver_cost == lines_sum(lines@.take(k as int), AllocationKind::PerDiver, false),
            per_diver_charge == lines_sum(lines@.take(k as int), AllocationKind::PerDiver, true),
            shared_cost >= 0,
            shared_charge >= 0,
            per_diver_cost >= 0,
            per_diver_charge >= 0,
        decreases lines.len() - k,
    {
        let l = &lines[k];
        proof {
            lemma_lines_sum_step(lines@, k as int, AllocationKind::Shared, false);
            lemma_lines_sum_step(lines@, k as int, AllocationKind::Shared, true);
            lemma_lines_sum_step(lines@, k as int, AllocationKind::PerDiver, false);
            lemma_lines_sum_step(lines@, k as int, AllocationKind::PerDiver, true);
        }
        match l.allocation {
            AllocationKind::Shared => {
                shared_cost = match shared_cost.checked_add(l.shop_cost_amount) {
                    Some(v) => v,
                    None => {
                        proof {
                            lemma_lines_sum_mono(lines@, k as int + 1, AllocationKind::Shared, false);
                            lemma_rentals_sum_nonneg(grs, false);
                        }
                        return Err(overflow_error());
                    },
                };
                shared_charge = match shared_charge.checked_add(l.customer_charge_amount) {
                    Some(v) => v,
                    None => {
                        proof {
                            lemma_lines_sum_mono(lines@, k as int + 1, AllocationKind::Shared, true);
                            lemma_rentals_sum_nonneg(grs, true);
                        }
                        return Err(overflow_error());
                    },
                };
            },
            AllocationKind::PerDiver => {
                per_diver_cost = match per_diver_cost.checked_add(l.shop_cost_amount) {
                    Some(v) => v,
                    None => {
                        proof {
                            lemma_lines_sum_mono(
                                lines@,
                                k as int + 1,
                                AllocationKind::PerDiver,
                                false,
                            );
                        }
                        return Err(overflow_error());
                    },
                };
                per_diver_charge = match per_diver_charge.checked_add(l.customer_charge_amount) {
                    Some(v) => v,
                    None => {
                        proof {
                            lemma_lines_sum_mono(
                                lines@,
                                k as int + 1,
                                AllocationKind::PerDiver,
                                true,
                            );
                        }
                        return Err(overflow_error());
                    },
                };
            },
        }
        k = k + 1;
    }
    proof {
        assert(lines@.take(lines@.len() as int) =~= lines@);
    }
    match rentals {
        Some(rs) => {
            let mut k2: usize = 0;
            while k2 < rs.len()
                invariant
                    k2 <= rs.len(),
                    lines_nonneg(lines@),
                    rentals_nonneg(rs@),
                    rentals == Some(rs),
                    grs == rs@,
                    shared_cost == lines_sum(lines@, AllocationKind::Shared, false) + rentals_sum(
                        rs@.take(k2 as int),
                        false,
                    ),
                    shared_charge == lines_sum(lines@, AllocationKind::Shared, true) + rentals_sum(
                        rs@.take(k2 as int),
                        true,
                    ),
                    per_diver_cost == lines_sum(lines@, AllocationKind::PerDiver, false),
                    per_diver_charge == lines_sum(lines@, AllocationKind::PerDiver, true),
                    shared_cost >= 0,
                    shared_charge >= 0,
                    per_diver_cost >= 0,
                    per_diver_charge >= 0,
                decreases rs.len() - k2,
            {
                let rent = &rs[k2];
                proof {
                    lemma_rentals_sum_step(rs@, k2 as int, false);
                    lemma_rentals_sum_step(rs@, k2 as int, true);
                    assert(rental_term(rs@[k2 as int], false) >= 0 && rental_term(
                        rs@[k2 as int],
                        true,
                    ) >= 0) by (nonlinear_arith)
                        requires
                            rs@[k2 as int].unit_cost_amount >= 0,
                            rs@[k2 as int].unit_charge_amount >= 0,
                            rs@[k2 as int].quantity >= 0,
                    ;
                }
                let rent_cost = match rent.unit_cost_amount.checked_mul(rent.quantity as i64) {
                    Some(v) => v,
                    None => {
                        proof {
                            lemma_rentals_sum_mono(rs@, k2 as int + 1, false);
                        }
                        return Err(overflow_error());
                    },
                };
                let rent_charge = match rent.unit_charge_amount.checked_mul(rent.quantity as i64) {
                    Some(v) => v,
                    None => {
                        proof {
                            lemma_rentals_sum_mono(rs@, k2 as int + 1, true);
                        }
                        return Err(overflow_error());
                    },
                };
                shared_cost = match shared_cost.checked_add(rent_cost) {
                    Some(v) => v,
                    None => {
                        proof {
                            lemma_rentals_sum_mono(rs@, k2 as int + 1, false);
                        }
                        return Err(overflow_error());
                    },
                };
                shared_charge = match shared_charge.checked_add(rent_charge) {
                    Some(v) => v,
                    None => {
                        proof {
                            lemma_rentals_sum_mono(rs@, k2 as int + 1, true);
                        }
                        return Err(overflow_error());
                    },
                };
                k2 = k2 + 1;
            }
            proof {
                assert(rs@.take(rs@.len() as int) =~= rs@);
            }
        },
        None => (),
    }
    let shared_cost_per_diver = div_round_half_up(shared_cost, diver_count as i64);
    let shared_charge_per_diver = div_round_half_up(shared_charge, diver_count as i64);
    proof {
        crate::money::lemma_round_half_up_bounds(shared_cost as int, diver_count as int);
        crate::money::lemma_round_half_up_bounds(shared_charge as int, diver_count as int);
    }
    let total_cost_per_diver = match per_diver_cost.checked_add(shared_cost_per_diver) {
        Some(v) => v,
        None => {
            return Err(overflow_error());
        },
    };
    let total_charge_per_diver = match per_diver_charge.checked_add(shared_charge_per_diver) {
        Some(v) => v,
        None => {
            return Err(overflow_error());
        },
    };
    let margin_per_diver = total_charge_per_diver - total_cost_per_diver;
    Ok(
        PricingTotalsResult {
            shared_cost,
            shared_charge,
            per_diver_cost,
            per_diver_charge,
            shared_cost_per_diver,
            shared_charge_per_diver,
            total_cost_per_diver,
            total_charge_per_diver,
            margin_per_diver,
            diver_count,
        },
    )
}

} // verus!
