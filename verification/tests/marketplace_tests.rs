use ip_settlement::ledger::compensation;
use ip_settlement::marketplace::{
    cancel_listing, list_ip_asset, purchase, seller_is_listed, settle_purchase, transfers_made,
};
use ip_settlement::registry::Registry;
use ip_settlement::types::{
    Allocation, Beneficiary, LedgerReport, ListingState, SettlementError, Transfer,
};

fn store() -> Registry {
    let mut registry = Registry::new();
    let table = vec![
        Beneficiary { account: "A".to_string(), basis_points: 7000 },
        Beneficiary { account: "B".to_string(), basis_points: 3000 },
    ];
    registry.register_asset(7, "creator".to_string(), 1_000, table).unwrap();
    registry
}

fn seller() -> String {
    "seller".to_string()
}

fn buyer() -> String {
    "buyer".to_string()
}

fn escrow() -> String {
    "escrow".to_string()
}

#[test]
fn listing_is_created_active() {
    let mut registry = store();
    let id = list_ip_asset(&mut registry, seller(), 7, 500, 100, 100).unwrap();
    assert_eq!(id, 0);
    let listing = &registry.listings[0];
    assert_eq!(listing.asset_id, 7);
    assert_eq!(listing.seller, "seller");
    assert_eq!(listing.price, 500);
    assert_eq!(listing.shares_offered, 100);
    assert_eq!(listing.state, ListingState::Active);
    assert!(listing.is_active());
    assert!(seller_is_listed(&registry, 7, &seller()));
    assert!(!seller_is_listed(&registry, 7, &buyer()));
}

#[test]
fn listing_needs_price_offer_and_balance() {
    let mut registry = store();
    assert_eq!(
        list_ip_asset(&mut registry, seller(), 7, 0, 100, 100),
        Err(SettlementError::InsufficientShares)
    );
    assert_eq!(
        list_ip_asset(&mut registry, seller(), 7, 500, 0, 100),
        Err(SettlementError::InsufficientShares)
    );
    assert_eq!(
        list_ip_asset(&mut registry, seller(), 7, 500, 101, 100),
        Err(SettlementError::InsufficientShares)
    );
    assert!(registry.listings.is_empty());
}

#[test]
fn listing_does_not_ask_for_the_asset() {
    let mut registry = store();
    assert_eq!(list_ip_asset(&mut registry, seller(), 8, 500, 100, 100), Ok(0));
    assert_eq!(registry.listings[0].asset_id, 8);
    assert_eq!(registry.listings[0].state, ListingState::Active);
    assert_eq!(
        list_ip_asset(&mut registry, buyer(), 8, 500, 101, 100),
        Err(SettlementError::InsufficientShares)
    );
    assert_eq!(
        list_ip_asset(&mut registry, seller(), 8, 500, 100, 100),
        Err(SettlementError::ListingAlreadyActive)
    );
    let mut empty = Registry::new();
    assert_eq!(list_ip_asset(&mut empty, seller(), 1, 1, 1, 1), Ok(0));
    assert!(empty.is_well_formed());
}

#[test]
fn sale_of_a_listing_without_asset_fails() {
    let mut registry = store();
    let id = list_ip_asset(&mut registry, seller(), 8, 500, 100, 100).unwrap();
    assert_eq!(
        purchase(&mut registry, &buyer(), &escrow(), id, 500, 100).err(),
        Some(SettlementError::AssetNotFound)
    );
    assert_eq!(
        purchase(&mut registry, &buyer(), &escrow(), id, 500, 1).err(),
        Some(SettlementError::AssetNotFound)
    );
    assert_eq!(
        purchase(&mut registry, &buyer(), &escrow(), id, 499, 100).err(),
        Some(SettlementError::PriceMismatch)
    );
    assert_eq!(
        settle_purchase(&mut registry, buyer(), id, 500, LedgerReport::Settled, 1),
        Err(SettlementError::AssetNotFound)
    );
    assert_eq!(registry.listings[id].state, ListingState::Active);
    assert!(registry.settlements.is_empty());
    assert_eq!(cancel_listing(&mut registry, &seller(), id), Ok(()));
}

#[test]
fn one_active_listing_per_seller_and_asset() {
    let mut registry = store();
    list_ip_asset(&mut registry, seller(), 7, 500, 100, 100).unwrap();
    assert_eq!(
        list_ip_asset(&mut registry, seller(), 7, 600, 50, 100),
        Err(SettlementError::ListingAlreadyActive)
    );
    assert_eq!(list_ip_asset(&mut registry, buyer(), 7, 600, 50, 100), Ok(1));
    cancel_listing(&mut registry, &seller(), 0).unwrap();
    assert_eq!(list_ip_asset(&mut registry, seller(), 7, 600, 50, 100), Ok(2));
}

#[test]
fn cancel_twice_fails_the_second_time() {
    let mut registry = store();
    let id = list_ip_asset(&mut registry, seller(), 7, 500, 100, 100).unwrap();
    assert_eq!(cancel_listing(&mut registry, &seller(), id), Ok(()));
    assert_eq!(registry.listings[id].state, ListingState::Cancelled);
    assert_eq!(cancel_listing(&mut registry, &seller(), id), Err(SettlementError::Invalidated));
    assert_eq!(registry.listings[id].state, ListingState::Cancelled);
}

#[test]
fn cancel_is_for_the_seller_only() {
    let mut registry = store();
    let id = list_ip_asset(&mut registry, seller(), 7, 500, 100, 100).unwrap();
    assert_eq!(cancel_listing(&mut registry, &buyer(), id), Err(SettlementError::Unauthorized));
    assert_eq!(registry.listings[id].state, ListingState::Active);
    assert_eq!(cancel_listing(&mut registry, &seller(), 5), Err(SettlementError::AssetNotFound));
}

#[test]
fn purchase_plans_the_transfers() {
    let mut registry = store();
    let id = list_ip_asset(&mut registry, seller(), 7, 500, 100, 100).unwrap();
    let plan = purchase(&mut registry, &buyer(), &escrow(), id, 500, 100).unwrap();
    assert_eq!(plan.listing_id, id);
    assert_eq!(plan.asset_id, 7);
    assert_eq!(
        plan.share_transfer,
        Transfer { from: "seller".to_string(), to: "buyer".to_string(), amount: 100 }
    );
    assert_eq!(
        plan.payment_transfer,
        Transfer { from: "buyer".to_string(), to: "escrow".to_string(), amount: 500 }
    );
    assert_eq!(plan.distribution.payment, 500);
    assert_eq!(
        plan.distribution.allocations,
        vec![
            Allocation { account: "A".to_string(), amount: 350 },
            Allocation { account: "B".to_string(), amount: 150 },
        ]
    );
    assert_eq!(registry.listings[id].state, ListingState::Active);
    assert!(registry.settlements.is_empty());
}

#[test]
fn purchase_at_another_price_fails() {
    let mut registry = store();
    let id = list_ip_asset(&mut registry, seller(), 7, 500, 100, 100).unwrap();
    assert_eq!(
        purchase(&mut registry, &buyer(), &escrow(), id, 499, 100).err(),
        Some(SettlementError::PriceMismatch)
    );
    assert_eq!(registry.listings[id].state, ListingState::Active);
    assert_eq!(
        purchase(&mut registry, &buyer(), &escrow(), 3, 500, 100).err(),
        Some(SettlementError::AssetNotFound)
    );
}

#[test]
fn purchase_invalidates_a_listing_the_seller_cannot_fill() {
    let mut registry = store();
    let id = list_ip_asset(&mut registry, seller(), 7, 500, 100, 100).unwrap();
    assert_eq!(
        purchase(&mut registry, &buyer(), &escrow(), id, 500, 99).err(),
        Some(SettlementError::Invalidated)
    );
    assert_eq!(registry.listings[id].state, ListingState::Invalidated);
    assert_eq!(
        purchase(&mut registry, &buyer(), &escrow(), id, 500, 100).err(),
        Some(SettlementError::Invalidated)
    );
    assert_eq!(cancel_listing(&mut registry, &seller(), id), Err(SettlementError::Invalidated));
}

#[test]
fn settled_purchase_is_recorded_and_sold() {
    let mut registry = store();
    let id = list_ip_asset(&mut registry, seller(), 7, 500, 100, 100).unwrap();
    purchase(&mut registry, &buyer(), &escrow(), id, 500, 100).unwrap();
    let at = settle_purchase(&mut registry, buyer(), id, 500, LedgerReport::Settled, 1_700_000_000)
        .unwrap();
    assert_eq!(at, 0);
    assert_eq!(registry.listings[id].state, ListingState::Sold);
    assert_eq!(registry.settlements.len(), 1);
    let record = &registry.settlements[0];
    assert_eq!(record.listing_id, id);
    assert_eq!(record.buyer, "buyer");
    assert_eq!(record.total_paid, 500);
    assert_eq!(record.timestamp, 1_700_000_000);
    assert_eq!(record.distribution.payment, 500);
    assert_eq!(
        record.distribution.allocations,
        vec![
            Allocation { account: "A".to_string(), amount: 350 },
            Allocation { account: "B".to_string(), amount: 150 },
        ]
    );
}

#[test]
fn second_purchase_after_a_sale_fails() {
    let mut registry = store();
    let id = list_ip_asset(&mut registry, seller(), 7, 500, 100, 100).unwrap();
    purchase(&mut registry, &buyer(), &escrow(), id, 500, 100).unwrap();
    settle_purchase(&mut registry, buyer(), id, 500, LedgerReport::Settled, 1).unwrap();
    assert_eq!(
        purchase(&mut registry, &"late".to_string(), &escrow(), id, 500, 100).err(),
        Some(SettlementError::Invalidated)
    );
    assert_eq!(
        settle_purchase(&mut registry, "late".to_string(), id, 500, LedgerReport::Settled, 2),
        Err(SettlementError::Invalidated)
    );
    assert_eq!(registry.settlements.len(), 1);
    assert_eq!(registry.listings[id].state, ListingState::Sold);
}

#[test]
fn failed_share_transfer_leaves_no_trace() {
    let mut registry = store();
    let id = list_ip_asset(&mut registry, seller(), 7, 500, 100, 100).unwrap();
    assert_eq!(
        settle_purchase(&mut registry, buyer(), id, 500, LedgerReport::ShareTransferFailed, 1),
        Err(SettlementError::ShareTransferFailed)
    );
    assert_eq!(registry.listings[id].state, ListingState::Active);
    assert!(registry.settlements.is_empty());
}

#[test]
fn failed_distribution_leaves_no_trace() {
    let mut registry = store();
    let id = list_ip_asset(&mut registry, seller(), 7, 500, 100, 100).unwrap();
    assert_eq!(
        settle_purchase(
            &mut registry,
            buyer(),
            id,
            500,
            LedgerReport::DistributionFailed { index: 1 },
            1
        ),
        Err(SettlementError::DistributionFailed { index: 1 })
    );
    assert_eq!(registry.listings[id].state, ListingState::Active);
    assert!(registry.settlements.is_empty());
    assert!(purchase(&mut registry, &buyer(), &escrow(), id, 500, 100).is_ok());
}

#[test]
fn settle_checks_the_price_again() {
    let mut registry = store();
    let id = list_ip_asset(&mut registry, seller(), 7, 500, 100, 100).unwrap();
    assert_eq!(
        settle_purchase(&mut registry, buyer(), id, 501, LedgerReport::Settled, 1),
        Err(SettlementError::PriceMismatch)
    );
    assert_eq!(
        settle_purchase(&mut registry, buyer(), 9, 500, LedgerReport::Settled, 1),
        Err(SettlementError::AssetNotFound)
    );
    assert_eq!(registry.listings[id].state, ListingState::Active);
}

#[test]
fn transfers_made_follow_the_report() {
    let mut registry = store();
    let id = list_ip_asset(&mut registry, seller(), 7, 500, 100, 100).unwrap();
    let plan = purchase(&mut registry, &buyer(), &escrow(), id, 500, 100).unwrap();
    let share = Transfer { from: "seller".to_string(), to: "buyer".to_string(), amount: 100 };
    let pay = Transfer { from: "buyer".to_string(), to: "escrow".to_string(), amount: 500 };
    let to_a = Transfer { from: "escrow".to_string(), to: "A".to_string(), amount: 350 };
    let to_b = Transfer { from: "escrow".to_string(), to: "B".to_string(), amount: 150 };

    let (shares, payments) = transfers_made(&plan, LedgerReport::ShareTransferFailed);
    assert!(shares.is_empty());
    assert!(payments.is_empty());

    let (shares, payments) = transfers_made(&plan, LedgerReport::DistributionFailed { index: 0 });
    assert_eq!(shares, vec![share.clone()]);
    assert_eq!(payments, vec![pay.clone()]);

    let (shares, payments) = transfers_made(&plan, LedgerReport::DistributionFailed { index: 1 });
    assert_eq!(shares, vec![share.clone()]);
    assert_eq!(payments, vec![pay.clone(), to_a.clone()]);

    let (shares, payments) = transfers_made(&plan, LedgerReport::Settled);
    assert_eq!(shares, vec![share.clone()]);
    assert_eq!(payments, vec![pay.clone(), to_a.clone(), to_b.clone()]);
}

#[test]
fn failed_distribution_gives_the_buyer_no_shares() {
    let mut registry = store();
    let id = list_ip_asset(&mut registry, seller(), 7, 500, 100, 100).unwrap();
    let plan = purchase(&mut registry, &buyer(), &escrow(), id, 500, 100).unwrap();
    let report = LedgerReport::DistributionFailed { index: 1 };
    let (shares, payments) = transfers_made(&plan, report);
    let shares_back = compensation(&shares);
    let payments_back = compensation(&payments);
    assert_eq!(
        shares_back,
        vec![Transfer { from: "buyer".to_string(), to: "seller".to_string(), amount: 100 }]
    );
    assert_eq!(
        payments_back,
        vec![
            Transfer { from: "A".to_string(), to: "escrow".to_string(), amount: 350 },
            Transfer { from: "escrow".to_string(), to: "buyer".to_string(), amount: 500 },
        ]
    );
    let mut buyer_shares: i128 = 0;
    for t in shares.iter().chain(shares_back.iter()) {
        if t.to == "buyer" {
            buyer_shares += t.amount as i128;
        }
        if t.from == "buyer" {
            buyer_shares -= t.amount as i128;
        }
    }
    assert_eq!(buyer_shares, 0);
    assert_eq!(
        settle_purchase(&mut registry, buyer(), id, 500, report, 1),
        Err(SettlementError::DistributionFailed { index: 1 })
    );
    assert_eq!(registry.listings[id].state, ListingState::Active);
}
