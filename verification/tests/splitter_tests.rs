use ip_settlement::splitter::{
    adds_up_to_whole, distribute, distribute_royalties, distribute_with_policy,
    proportional_share, split_payment,
};
use ip_settlement::types::{Allocation, Beneficiary, Distribution, SettlementError};

fn table(rows: &[(&str, u64)]) -> Vec<Beneficiary> {
    rows.iter()
        .map(|(account, basis_points)| Beneficiary {
            account: account.to_string(),
            basis_points: *basis_points,
        })
        .collect()
}

fn amounts(distribution: &Distribution) -> Vec<u128> {
    distribution.allocations.iter().map(|a| a.amount).collect()
}

#[test]
fn seventy_thirty_split_has_no_residual() {
    let d = distribute(100, &table(&[("A", 7000), ("B", 3000)])).unwrap();
    assert_eq!(d.payment, 100);
    assert_eq!(
        d.allocations,
        vec![
            Allocation { account: "A".to_string(), amount: 70 },
            Allocation { account: "B".to_string(), amount: 30 },
        ]
    );
}

#[test]
fn residual_goes_to_first_beneficiary() {
    let d = distribute(10, &table(&[("A", 3333), ("B", 3333), ("C", 3334)])).unwrap();
    assert_eq!(
        d.allocations,
        vec![
            Allocation { account: "A".to_string(), amount: 4 },
            Allocation { account: "B".to_string(), amount: 3 },
            Allocation { account: "C".to_string(), amount: 3 },
        ]
    );
}

#[test]
fn allocations_add_up_to_payment() {
    let t = table(&[("A", 1), ("B", 4999), ("C", 2500), ("D", 2500)]);
    for payment in [1u128, 2, 3, 7, 99, 10_000, 10_001, 123_456_789, u128::MAX - 1, u128::MAX] {
        let d = distribute(payment, &t).unwrap();
        let mut sum: u128 = 0;
        for a in &d.allocations {
            sum = sum.checked_add(a.amount).unwrap();
        }
        assert_eq!(sum, payment);
        assert_eq!(d.allocations.len(), 4);
    }
}

#[test]
fn largest_payment_is_split_without_overflow() {
    let d = distribute(u128::MAX, &table(&[("A", 5000), ("B", 5000)])).unwrap();
    let half = u128::MAX / 2;
    assert_eq!(amounts(&d), vec![half + 1, half]);
}

#[test]
fn single_beneficiary_gets_everything() {
    let d = distribute(12_345, &table(&[("A", 10_000)])).unwrap();
    assert_eq!(amounts(&d), vec![12_345]);
}

#[test]
fn payment_of_one_goes_to_first() {
    let d = distribute(1, &table(&[("A", 1), ("B", 9_999)])).unwrap();
    assert_eq!(amounts(&d), vec![1, 0]);
}

#[test]
fn proportional_share_rounds_down() {
    assert_eq!(proportional_share(12_345, 2_500), 3_086);
    assert_eq!(proportional_share(10, 3_333), 3);
    assert_eq!(proportional_share(9_999, 1), 0);
    assert_eq!(proportional_share(10_000, 1), 1);
    assert_eq!(proportional_share(u128::MAX, 10_000), u128::MAX);
    assert_eq!(proportional_share(u128::MAX, 0), 0);
    assert_eq!(
        proportional_share(u128::MAX, 1),
        34_028_236_692_093_846_346_337_460_743_176_821
    );
}

#[test]
fn empty_table_is_refused() {
    assert_eq!(distribute(100, &Vec::new()), Err(SettlementError::EmptyBeneficiaryTable));
    assert_eq!(distribute(0, &Vec::new()), Err(SettlementError::EmptyBeneficiaryTable));
}

#[test]
fn zero_payment_is_refused() {
    assert_eq!(
        distribute(0, &table(&[("A", 7000), ("B", 3000)])),
        Err(SettlementError::ZeroPayment)
    );
}

#[test]
fn table_that_does_not_add_up_is_refused() {
    assert_eq!(
        distribute(100, &table(&[("A", 7000), ("B", 2999)])),
        Err(SettlementError::InvalidBeneficiaryTable)
    );
    assert_eq!(
        distribute(100, &table(&[("A", 7000), ("B", 3001)])),
        Err(SettlementError::InvalidBeneficiaryTable)
    );
    assert_eq!(
        distribute(100, &table(&[("A", u64::MAX), ("B", u64::MAX)])),
        Err(SettlementError::InvalidBeneficiaryTable)
    );
}

#[test]
fn adds_up_to_whole_sums_the_table() {
    assert!(adds_up_to_whole(&table(&[("A", 10_000)])));
    assert!(adds_up_to_whole(&table(&[("A", 0), ("B", 10_000)])));
    assert!(!adds_up_to_whole(&table(&[])));
    assert!(!adds_up_to_whole(&table(&[("A", 10_001)])));
    assert!(!adds_up_to_whole(&table(&[("A", 5_000), ("B", 4_999)])));
}

#[test]
fn split_payment_of_zero_gives_zeros() {
    let d = split_payment(0, &table(&[("A", 7000), ("B", 3000)]));
    assert_eq!(d.payment, 0);
    assert_eq!(amounts(&d), vec![0, 0]);
}

#[test]
fn distribute_royalties_reports_each_allocation() {
    let (d, response) =
        distribute_royalties(&table(&[("A", 3333), ("B", 3333), ("C", 3334)]), 10).unwrap();
    assert_eq!(amounts(&d), vec![4, 3, 3]);
    let got: Vec<(String, String)> =
        response.attributes.iter().map(|a| (a.key.clone(), a.value.clone())).collect();
    let want: Vec<(String, String)> = [
        ("method", "distribute_royalties"),
        ("amount", "10"),
        ("recipient", "A"),
        ("share", "4"),
        ("recipient", "B"),
        ("share", "3"),
        ("recipient", "C"),
        ("share", "3"),
    ]
    .iter()
    .map(|(k, v)| (k.to_string(), v.to_string()))
    .collect();
    assert_eq!(got, want);
    assert!(response.messages.is_empty());
}

#[test]
fn distribute_royalties_refuses_as_distribute_does() {
    assert_eq!(
        distribute_royalties(&Vec::new(), 5).err(),
        Some(SettlementError::EmptyBeneficiaryTable)
    );
    assert_eq!(
        distribute_royalties(&table(&[("A", 10_000)]), 0).err(),
        Some(SettlementError::ZeroPayment)
    );
}

#[test]
fn zero_payment_is_split_where_the_policy_admits_it() {
    let t = table(&[("A", 7000), ("B", 3000)]);
    let d = distribute_with_policy(0, &t, true).unwrap();
    assert_eq!(amounts(&d), vec![0, 0]);
    assert_eq!(distribute_with_policy(0, &t, false), Err(SettlementError::ZeroPayment));
    assert_eq!(
        distribute_with_policy(0, &Vec::new(), true),
        Err(SettlementError::EmptyBeneficiaryTable)
    );
    assert_eq!(
        distribute_with_policy(0, &table(&[("A", 1)]), true),
        Err(SettlementError::InvalidBeneficiaryTable)
    );
    assert_eq!(amounts(&distribute_with_policy(10, &t, true).unwrap()), vec![7, 3]);
}
