use dive_pricing::allocate::allocate_shared_costs;
use dive_pricing::errors::PricingError;
use dive_pricing::money::div_round_half_up;

#[test]
fn allocate_100_over_3_divers() {
    // 100.00 over 3 divers: first diver takes the extra cent.
    let r = allocate_shared_costs(10000, 3, "USD").unwrap();
    assert_eq!(r.per_diver, 3333);
    assert_eq!(r.amounts, vec![3334, 3333, 3333]);
    assert_eq!(r.amounts.iter().sum::<i64>(), 10000);
    assert_eq!(r.currency, "USD");
}

#[test]
fn allocate_exact_division_no_remainder() {
    let r = allocate_shared_costs(9000, 3, "USD").unwrap();
    assert_eq!(r.per_diver, 3000);
    assert_eq!(r.amounts, vec![3000, 3000, 3000]);
}

#[test]
fn allocate_single_diver_takes_all() {
    let r = allocate_shared_costs(12345, 1, "MXN").unwrap();
    assert_eq!(r.per_diver, 12345);
    assert_eq!(r.amounts, vec![12345]);
}

#[test]
fn allocate_zero_total() {
    let r = allocate_shared_costs(0, 4, "USD").unwrap();
    assert_eq!(r.amounts, vec![0, 0, 0, 0]);
    assert_eq!(r.per_diver, 0);
}

#[test]
fn allocate_sum_is_exact_with_large_remainder() {
    let r = allocate_shared_costs(1000, 7, "USD").unwrap();
    assert_eq!(r.amounts.len(), 7);
    assert_eq!(r.amounts.iter().sum::<i64>(), 1000);
    // every amount within one minor unit of the floor of the mean
    for a in &r.amounts {
        assert!(*a == 142 || *a == 143);
    }
}

#[test]
fn allocate_deterministic() {
    let a = allocate_shared_costs(9999, 4, "USD").unwrap();
    let b = allocate_shared_costs(9999, 4, "USD").unwrap();
    assert_eq!(a.amounts, b.amounts);
    assert_eq!(a.per_diver, b.per_diver);
}

#[test]
fn allocate_zero_divers_is_configuration_error() {
    let e = allocate_shared_costs(10000, 0, "USD").unwrap_err();
    assert!(matches!(e, PricingError::ConfigurationError { .. }));
}

#[test]
fn allocate_negative_total_is_configuration_error() {
    let e = allocate_shared_costs(-1, 2, "USD").unwrap_err();
    assert!(matches!(e, PricingError::ConfigurationError { .. }));
}

#[test]
fn rounding_half_goes_up() {
    // 5 / 2 = 2.5 rounds up to 3
    assert_eq!(div_round_half_up(5, 2), 3);
    // 7 / 2 = 3.5 rounds up to 4
    assert_eq!(div_round_half_up(7, 2), 4);
    // 10000 / 3 = 3333.33 rounds down
    assert_eq!(div_round_half_up(10000, 3), 3333);
    // 20000 / 3 = 6666.67 rounds up
    assert_eq!(div_round_half_up(20000, 3), 6667);
}
