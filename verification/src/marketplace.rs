//! The marketplace engine: listings are opened, cancelled and sold.
//!
//! A listing starts `Active` and ends `Sold`, `Cancelled` or `Invalidated`.
//! A sale takes two steps. `purchase` checks the request against the store
//! and the seller's live balance and hands back the plan of transfers;
//! `settle_purchase` takes the ledgers' report on that plan and either
//! records the sale or leaves the store untouched.

use vstd::prelude::*;
use crate::ledger::{
    is_compensation_of,
    is_payouts_of,
    lemma_rollback_restores,
    net_received,
    payouts,
};
use crate::registry::{valid_table, Registry};
use crate::splitter::{distribute, is_split_of};
use crate::types::{
    LedgerReport,
    Listing,
    ListingState,
    PurchasePlan,
    SettlementError,
    SettlementRecord,
    Transfer,
};

verus! {

/// `listings` with the state of entry `id` replaced.
pub open spec fn with_state(listings: Seq<Listing>, id: int, state: ListingState) -> Seq<Listing> {
    listings.update(id, (Listing { state, ..listings[id] }))
}

/// Nothing but an active listing has changed from `before` to `after`, and
/// no listing is gone: a listing that has left `Active` stays as it is.
pub open spec fn closed_listings_kept(before: Seq<Listing>, after: Seq<Listing>) -> bool {
    &&& before.len() <= after.len()
    &&& forall|j: int|
        0 <= j < before.len() && !(#[trigger] before[j]).active() ==> after[j] == before[j]
}

/// The error `list_ip_asset` gives, if any.
pub open spec fn listing_error(
    registry: Registry,
    seller: Seq<char>,
    asset_id: u64,
    price: u128,
    shares_offered: u128,
    seller_balance: u128,
) -> Option<SettlementError> {
    if price == 0 || shares_offered == 0 || shares_offered > seller_balance {
        Some(SettlementError::InsufficientShares)
    } else if registry.has_active_listing_of(asset_id, seller) {
        Some(SettlementError::ListingAlreadyActive)
    } else {
        None
    }
}

/// The error `cancel_listing` gives, if any.
pub open spec fn cancel_error(registry: Registry, seller: Seq<char>, listing_id: usize) -> Option<
    SettlementError,
> {
    if listing_id >= registry.listings@.len() {
        Some(SettlementError::AssetNotFound)
    } else if registry.listings@[listing_id as int].seller@ != seller {
        Some(SettlementError::Unauthorized)
    } else if !registry.listings@[listing_id as int].active() {
        Some(SettlementError::Invalidated)
    } else {
        None
    }
}

/// The error that a sale of the listing at this payment meets before any
/// ledger is asked, if any.
pub open spec fn sale_error(registry: Registry, listing_id: usize, payment: u128) -> Option<
    SettlementError,
> {
    if listing_id >= registry.listings@.len() {
        Some(SettlementError::AssetNotFound)
    } else if !registry.listings@[listing_id as int].active() {
        Some(SettlementError::Invalidated)
    } else if payment != registry.listings@[listing_id as int].price {
        Some(SettlementError::PriceMismatch)
    } else if !registry.has_asset(registry.listings@[listing_id as int].asset_id) {
        Some(SettlementError::AssetNotFound)
    } else {
        None
    }
}

/// The error `purchase` gives, if any.
pub open spec fn purchase_error(
    registry: Registry,
    listing_id: usize,
    payment: u128,
    seller_balance: u128,
) -> Option<SettlementError> {
    if sale_error(registry, listing_id, payment) is Some {
        sale_error(registry, listing_id, payment)
    } else if seller_balance < registry.listings@[listing_id as int].shares_offered {
        Some(SettlementError::Invalidated)
    } else {
        None
    }
}

/// The error `settle_purchase` gives, if any.
pub open spec fn settle_error(
    registry: Registry,
    listing_id: usize,
    payment: u128,
    report: LedgerReport,
) -> Option<SettlementError> {
    if sale_error(registry, listing_id, payment) is Some {
        sale_error(registry, listing_id, payment)
    } else {
        match report {
            LedgerReport::Settled => None,
            LedgerReport::ShareTransferFailed => Some(SettlementError::ShareTransferFailed),
            LedgerReport::DistributionFailed { index } => Some(
                SettlementError::DistributionFailed { index },
            ),
        }
    }
}

/// The royalty table that the proceeds of a listing are split over.
pub open spec fn table_of(registry: Registry, listing_id: usize) -> Seq<crate::types::Beneficiary> {
    registry.asset_of(registry.listings@[listing_id as int].asset_id).beneficiaries@
}

/// The invariant carries over to a store with the same assets whose
/// listings kept their terms and opened nothing but, at most, one new
/// listing for a seller who had none active for that asset.
proof fn lemma_wf_carries(before: Registry, after: Registry)
    requires
        before.wf(),
        after.assets@ == before.assets@,
        before.listings@.len() <= after.listings@.len() <= before.listings@.len() + 1,
        forall|j: int|
            0 <= j < before.listings@.len() ==> {
                &&& (#[trigger] after.listings@[j]).asset_id == before.listings@[j].asset_id
                &&& after.listings@[j].seller@ == before.listings@[j].seller@
                &&& after.listings@[j].price == before.listings@[j].price
                &&& after.listings@[j].shares_offered == before.listings@[j].shares_offered
                &&& (after.listings@[j].active() ==> before.listings@[j].active())
            },
        after.listings@.len() > before.listings@.len() ==> {
            &&& after.listings@.last().price > 0
            &&& after.listings@.last().shares_offered > 0
            &&& !before.has_active_listing_of(
                after.listings@.last().asset_id,
                after.listings@.last().seller@,
            )
        },
    ensures
        after.wf(),
{
    let n = before.listings@.len() as int;
    assert forall|j: int| 0 <= j < after.listings@.len() implies {
        &&& (#[trigger] after.listings@[j]).price > 0
        &&& after.listings@[j].shares_offered > 0
    } by {
        if j < n {
            assert(before.listings@[j].price > 0);
        }
    }
    assert forall|j: int, k: int|
        0 <= j < k < after.listings@.len() && (#[trigger] after.listings@[j]).active() && (
        #[trigger] after.listings@[k]).active() implies !(after.listings@[j].asset_id
        == after.listings@[k].asset_id && after.listings@[j].seller@
        == after.listings@[k].seller@) by {
        assert(before.listings@[j].active());
        if k < n {
            assert(before.listings@[k].active());
        }
    }
    assert forall|i: int| 0 <= i < after.assets@.len() implies valid_table(
        (#[trigger] after.assets@[i]).beneficiaries@,
    ) by {
        assert(valid_table(before.assets@[i].beneficiaries@));
    }
    assert forall|i: int, j: int| 0 <= i < j < after.assets@.len() implies (
    #[trigger] after.assets@[i]).asset_id != (#[trigger] after.assets@[j]).asset_id by {
        assert(before.assets@[i].asset_id != before.assets@[j].asset_id);
    }
}

/// Whether this seller has an active listing for this asset.
pub fn seller_is_listed(registry: &Registry, asset_id: u64, seller: &String) -> (listed: bool)
    ensures
        listed == registry.has_active_listing_of(asset_id, seller@),
{
    let mut j: usize = 0;
    while j < registry.listings.len()
        invariant
            0 <= j <= registry.listings@.len(),
            forall|a: int|
                0 <= a < j ==> !((#[trigger] registry.listings@[a]).asset_id == asset_id
                    && registry.listings@[a].seller@ == seller@ && registry.listings@[a].active()),
        decreases registry.listings@.len() - j,
    {
        if registry.listings[j].asset_id == asset_id && registry.listings[j].seller == *seller
            && registry.listings[j].is_active() {
            return true;
        }
        j = j + 1;
    }
    false
}

/// Opens a listing of `shares_offered` shares of an asset at `price`, given
/// the seller's balance of those shares as the ledger holds it now.
///
/// Refused with `InsufficientShares` for a price or an offer of zero or an
/// offer above the balance, then with `ListingAlreadyActive` where the
/// seller has an active listing for the asset. A refusal leaves the store
/// as it was. Whether the asset is registered is not asked here; a sale of
/// a listing whose asset is not registered is refused.
/// Otherwise the listing is appended in state `Active` and its id returned.
pub fn list_ip_asset(
    registry: &mut Registry,
    seller: String,
    asset_id: u64,
    price: u128,
    shares_offered: u128,
    seller_balance: u128,
) -> (result: Result<usize, SettlementError>)
    requires
        old(registry).wf(),
    ensures
        final(registry).wf(),
        final(registry).assets == old(registry).assets,
        closed_listings_kept(old(registry).listings@, final(registry).listings@),
        final(registry).settlements == old(registry).settlements,
        match result {
            Ok(listing_id) => {
                &&& listing_error(
                    *old(registry),
                    seller@,
                    asset_id,
                    price,
                    shares_offered,
                    seller_balance,
                ) is None
                &&& listing_id == old(registry).listings@.len()
                &&& final(registry).listings@ == old(registry).listings@.push(
                    (Listing { asset_id, seller, price, shares_offered, state: ListingState::Active }),
                )
            },
            Err(error) => {
                &&& *final(registry) == *old(registry)
                &&& listing_error(
                    *old(registry),
                    seller@,
                    asset_id,
                    price,
                    shares_offered,
                    seller_balance,
                ) == Some(error)
            },
        },
{
    if price == 0 || shares_offered == 0 || shares_offered > seller_balance {
        return Err(SettlementError::InsufficientShares);
    }
    if seller_is_listed(registry, asset_id, &seller) {
        return Err(SettlementError::ListingAlreadyActive);
    }
    let listing_id: usize = registry.listings.len();
    let ghost before = *registry;
    registry.listings.push(
        Listing { asset_id, seller, price, shares_offered, state: ListingState::Active },
    );
    proof {
        lemma_wf_carries(before, *registry);
    }
    Ok(listing_id)
}

/// Puts the listing into `state`, which is not `Active`.
fn close_listing(registry: &mut Registry, listing_id: usize, state: ListingState)
    requires
        old(registry).wf(),
        listing_id < old(registry).listings@.len(),
        !(state is Active),
    ensures
        final(registry).wf(),
        final(registry).assets == old(registry).assets,
        final(registry).settlements == old(registry).settlements,
        final(registry).listings@ == with_state(old(registry).listings@, listing_id as int, state),
{
    let asset_id: u64 = registry.listings[listing_id].asset_id;
    let seller = registry.listings[listing_id].seller.clone();
    let price: u128 = registry.listings[listing_id].price;
    let shares_offered: u128 = registry.listings[listing_id].shares_offered;
    let ghost before = *registry;
    registry.listings.set(listing_id, Listing { asset_id, seller, price, shares_offered, state });
    proof {
        lemma_wf_carries(before, *registry);
    }
}

/// Cancels a listing.
///
/// Refused with `AssetNotFound` for an unknown listing, then with
/// `Unauthorized` unless the caller is its seller, then with `Invalidated`
/// unless it is `Active`. A refusal leaves the store as it was. Otherwise
/// the listing becomes `Cancelled`.
pub fn cancel_listing(registry: &mut Registry, seller: &String, listing_id: usize) -> (result:
    Result<(), SettlementError>)
    requires
        old(registry).wf(),
    ensures
        final(registry).wf(),
        final(registry).assets == old(registry).assets,
        closed_listings_kept(old(registry).listings@, final(registry).listings@),
        final(registry).settlements == old(registry).settlements,
        match result {
            Ok(_) => {
                &&& cancel_error(*old(registry), seller@, listing_id) is None
                &&& final(registry).listings@ == with_state(
                    old(registry).listings@,
                    listing_id as int,
                    ListingState::Cancelled,
                )
            },
            Err(error) => {
                &&& *final(registry) == *old(registry)
                &&& cancel_error(*old(registry), seller@, listing_id) == Some(error)
            },
        },
{
    if listing_id >= registry.listings.len() {
        return Err(SettlementError::AssetNotFound);
    }
    if !(registry.listings[listing_id].seller == *seller) {
        return Err(SettlementError::Unauthorized);
    }
    if !registry.listings[listing_id].is_active() {
        return Err(SettlementError::Invalidated);
    }
    close_listing(registry, listing_id, ListingState::Cancelled);
    Ok(())
}

/// Checks a purchase request and plans its transfers, given the seller's
/// balance of the asset's shares as the ledger holds it now.
///
/// Refused with `AssetNotFound` for an unknown listing, then with
/// `Invalidated` unless it is `Active`, then with `PriceMismatch` unless the
/// payment is the price, then with `AssetNotFound` where the listing's
/// asset is not registered; these leave the store as it was. Where the seller
/// no longer holds the shares offered, the listing becomes `Invalidated` and
/// the request is refused with `Invalidated`. Otherwise the store stays as
/// it was and the plan names the shares to move from seller to buyer, the
/// payment to take from the buyer into `escrow`, and the split of the
/// payment over the asset's royalty table.
pub fn purchase(
    registry: &mut Registry,
    buyer: &String,
    escrow: &String,
    listing_id: usize,
    payment: u128,
    seller_balance: u128,
) -> (result: Result<PurchasePlan, SettlementError>)
    requires
        old(registry).wf(),
    ensures
        final(registry).wf(),
        final(registry).assets == old(registry).assets,
        closed_listings_kept(old(registry).listings@, final(registry).listings@),
        final(registry).settlements == old(registry).settlements,
        match result {
            Ok(plan) => {
                &&& purchase_error(*old(registry), listing_id, payment, seller_balance) is None
                &&& *final(registry) == *old(registry)
                &&& plan.listing_id == listing_id
                &&& plan.asset_id == old(registry).listings@[listing_id as int].asset_id
                &&& plan.share_transfer.from@ == old(registry).listings@[listing_id as int].seller@
                &&& plan.share_transfer.to@ == buyer@
                &&& plan.share_transfer.amount == old(registry).listings@[listing_id
                    as int].shares_offered
                &&& plan.payment_transfer.from@ == buyer@
                &&& plan.payment_transfer.to@ == escrow@
                &&& plan.payment_transfer.amount == payment
                &&& plan.distribution.payment == payment
                &&& is_split_of(
                    plan.distribution.allocations@,
                    payment as int,
                    table_of(*old(registry), listing_id),
                )
            },
            Err(error) => {
                &&& purchase_error(*old(registry), listing_id, payment, seller_balance) == Some(
                    error,
                )
                &&& if sale_error(*old(registry), listing_id, payment) is Some {
                    *final(registry) == *old(registry)
                } else {
                    final(registry).listings@ == with_state(
                        old(registry).listings@,
                        listing_id as int,
                        ListingState::Invalidated,
                    )
                }
            },
        },
{
    if listing_id >= registry.listings.len() {
        return Err(SettlementError::AssetNotFound);
    }
    if !registry.listings[listing_id].is_active() {
        return Err(SettlementError::Invalidated);
    }
    if payment != registry.listings[listing_id].price {
        return Err(SettlementError::PriceMismatch);
    }
    let asset_id: u64 = registry.listings[listing_id].asset_id;
    if registry.find_asset(asset_id).is_none() {
        return Err(SettlementError::AssetNotFound);
    }
    if seller_balance < registry.listings[listing_id].shares_offered {
        close_listing(registry, listing_id, ListingState::Invalidated);
        return Err(SettlementError::Invalidated);
    }
    let asset = match registry.get_asset(asset_id) {
        Ok(asset) => asset,
        Err(error) => {
            return Err(error);
        },
    };
    proof {
        assert(valid_table(asset.beneficiaries@));
        assert(asset.beneficiaries@.len() > 0);
    }
    let distribution = match distribute(payment, &asset.beneficiaries) {
        Ok(distribution) => distribution,
        Err(error) => {
            return Err(error);
        },
    };
    Ok(
        PurchasePlan {
            listing_id,
            asset_id,
            share_transfer: Transfer {
                from: registry.listings[listing_id].seller.clone(),
                to: buyer.clone(),
                amount: registry.listings[listing_id].shares_offered,
            },
            payment_transfer: Transfer {
                from: buyer.clone(),
                to: escrow.clone(),
                amount: payment,
            },
            distribution,
        },
    )
}

/// Takes the ledgers' report on a purchase plan and closes the sale.
///
/// The request is checked again as in `purchase`: `AssetNotFound` for an
/// unknown listing, then `Invalidated`, then `PriceMismatch`, then
/// `AssetNotFound` for a listing whose asset is not registered. A report of a failed share transfer
/// gives `ShareTransferFailed` and one of a failed payout gives
/// `DistributionFailed` with the index reported. Every refusal leaves the
/// store as it was. Where all went through, the listing becomes `Sold`, a
/// settlement record is appended to the trail, and its position returned.
pub fn settle_purchase(
    registry: &mut Registry,
    buyer: String,
    listing_id: usize,
    payment: u128,
    report: LedgerReport,
    timestamp: u64,
) -> (result: Result<usize, SettlementError>)
    requires
        old(registry).wf(),
    ensures
        final(registry).wf(),
        final(registry).assets == old(registry).assets,
        closed_listings_kept(old(registry).listings@, final(registry).listings@),
        match result {
            Ok(position) => {
                &&& settle_error(*old(registry), listing_id, payment, report) is None
                &&& final(registry).listings@ == with_state(
                    old(registry).listings@,
                    listing_id as int,
                    ListingState::Sold,
                )
                &&& position == old(registry).settlements@.len()
                &&& final(registry).settlements@.len() == position + 1
                &&& final(registry).settlements@.take(position as int) == old(
                    registry,
                ).settlements@
                &&& is_record_of(
                    final(registry).settlements@[position as int],
                    *old(registry),
                    buyer@,
                    listing_id,
                    payment,
                    timestamp,
                )
            },
            Err(error) => {
                &&& *final(registry) == *old(registry)
                &&& settle_error(*old(registry), listing_id, payment, report) == Some(error)
            },
        },
{
    if listing_id >= registry.listings.len() {
        return Err(SettlementError::AssetNotFound);
    }
    if !registry.listings[listing_id].is_active() {
        return Err(SettlementError::Invalidated);
    }
    if payment != registry.listings[listing_id].price {
        return Err(SettlementError::PriceMismatch);
    }
    let asset_id: u64 = registry.listings[listing_id].asset_id;
    if registry.find_asset(asset_id).is_none() {
        return Err(SettlementError::AssetNotFound);
    }
    match report {
        LedgerReport::Settled => {},
        LedgerReport::ShareTransferFailed => {
            return Err(SettlementError::ShareTransferFailed);
        },
        LedgerReport::DistributionFailed { index } => {
            return Err(SettlementError::DistributionFailed { index });
        },
    }
    let asset = match registry.get_asset(asset_id) {
        Ok(asset) => asset,
        Err(error) => {
            return Err(error);
        },
    };
    proof {
        assert(valid_table(asset.beneficiaries@));
        assert(asset.beneficiaries@.len() > 0);
    }
    let distribution = match distribute(payment, &asset.beneficiaries) {
        Ok(distribution) => distribution,
        Err(error) => {
            return Err(error);
        },
    };
    let position: usize = registry.settlements.len();
    close_listing(registry, listing_id, ListingState::Sold);
    let ghost closed = *registry;
    registry.settlements.push(
        SettlementRecord { listing_id, buyer, total_paid: payment, distribution, timestamp },
    );
    proof {
        lemma_wf_carries(closed, *registry);
        assert(registry.settlements@.take(position as int) =~= closed.settlements@);
    }
    Ok(position)
}

/// The number of allocations whose payout the ledgers were asked for and
/// carried out when they gave `report` on a plan with `count` allocations.
pub open spec fn payouts_made(report: LedgerReport, count: nat) -> int {
    match report {
        LedgerReport::Settled => count as int,
        LedgerReport::ShareTransferFailed => 0,
        LedgerReport::DistributionFailed { index } => if index <= count {
            index as int
        } else {
            count as int
        },
    }
}

/// `shares` and `payments` are what the two ledgers carried out of `plan`
/// when they gave `report`: nothing after a failed share transfer;
/// otherwise the share transfer on the one, and on the other the payment
/// into escrow followed by the payouts that came before the failure, or by
/// all of them.
pub open spec fn is_made_of(
    shares: Seq<Transfer>,
    payments: Seq<Transfer>,
    plan: PurchasePlan,
    report: LedgerReport,
) -> bool {
    if report is ShareTransferFailed {
        shares.len() == 0 && payments.len() == 0
    } else {
        &&& shares.len() == 1
        &&& shares[0] == plan.share_transfer
        &&& payments.len() >= 1
        &&& payments[0] == plan.payment_transfer
        &&& is_payouts_of(
            payments.subrange(1, payments.len() as int),
            plan.distribution.allocations@.take(
                payouts_made(report, plan.distribution.allocations@.len()),
            ),
            plan.payment_transfer.to@,
        )
    }
}

/// The transfers that the share ledger and the payment ledger carried out
/// of a plan when they gave `report`, each in the order in which they were
/// made. After a report of failure, their `compensation` is what takes the
/// sale back.
pub fn transfers_made(plan: &PurchasePlan, report: LedgerReport) -> (made: (
    Vec<Transfer>,
    Vec<Transfer>,
))
    ensures
        is_made_of(made.0@, made.1@, *plan, report),
{
    let mut shares: Vec<Transfer> = Vec::new();
    let mut payments: Vec<Transfer> = Vec::new();
    let upto: usize = match report {
        LedgerReport::ShareTransferFailed => {
            return (shares, payments);
        },
        LedgerReport::Settled => plan.distribution.allocations.len(),
        LedgerReport::DistributionFailed { index } => index,
    };
    shares.push(plan.share_transfer.duplicate());
    payments.push(plan.payment_transfer.duplicate());
    let mut paid = payouts(&plan.distribution, &plan.payment_transfer.to, upto);
    let ghost paid_out = paid@;
    payments.append(&mut paid);
    proof {
        assert(payments@.subrange(1, payments@.len() as int) =~= paid_out);
    }
    (shares, payments)
}

/// A sale that falls through moves nothing: after what the ledgers carried
/// out of a plan and the compensation of it, every account holds on each
/// ledger what it held before the sale; the buyer's shares among them.
pub proof fn lemma_failed_sale_moves_nothing(
    plan: PurchasePlan,
    report: LedgerReport,
    shares: Seq<Transfer>,
    payments: Seq<Transfer>,
    shares_back: Seq<Transfer>,
    payments_back: Seq<Transfer>,
    account: Seq<char>,
)
    requires
        is_made_of(shares, payments, plan, report),
        is_compensation_of(shares_back, shares),
        is_compensation_of(payments_back, payments),
    ensures
        net_received(shares + shares_back, account) == 0,
        net_received(payments + payments_back, account) == 0,
{
    lemma_rollback_restores(shares, shares_back, account);
    lemma_rollback_restores(payments, payments_back, account);
}

/// `record` is the audit entry of the sale of a listing of `registry` to
/// `buyer` for `payment` at `timestamp`.
pub open spec fn is_record_of(
    record: SettlementRecord,
    registry: Registry,
    buyer: Seq<char>,
    listing_id: usize,
    payment: u128,
    timestamp: u64,
) -> bool {
    &&& record.listing_id == listing_id
    &&& record.buyer@ == buyer
    &&& record.total_paid == payment
    &&& record.timestamp == timestamp
    &&& record.distribution.payment == payment
    &&& is_split_of(record.distribution.allocations@, payment as int, table_of(registry, listing_id))
}

/// A listing that was cancelled cannot be cancelled again: on the store
/// that a successful `cancel_listing` leaves, the same call is refused with
/// `Invalidated`.
pub proof fn lemma_cancel_twice_refused(
    before: Registry,
    after: Registry,
    seller: Seq<char>,
    listing_id: usize,
)
    requires
        cancel_error(before, seller, listing_id) is None,
        after.listings@ == with_state(before.listings@, listing_id as int, ListingState::Cancelled),
    ensures
        cancel_error(after, seller, listing_id) == Some(SettlementError::Invalidated),
{
}

/// A listing is sold once: on the store that a successful `settle_purchase`
/// leaves, `purchase` and `settle_purchase` on the same listing are refused
/// with `Invalidated`, whatever the payment, the balance and the report.
pub proof fn lemma_sold_once(
    before: Registry,
    after: Registry,
    listing_id: usize,
    payment: u128,
    next_payment: u128,
    seller_balance: u128,
    report: LedgerReport,
)
    requires
        sale_error(before, listing_id, payment) is None,
        after.listings@ == with_state(before.listings@, listing_id as int, ListingState::Sold),
    ensures
        purchase_error(after, listing_id, next_payment, seller_balance) == Some(
            SettlementError::Invalidated,
        ),
        settle_error(after, listing_id, next_payment, report) == Some(
            SettlementError::Invalidated,
        ),
{
}

/// A listing that has left `Active` is closed for good: `cancel_listing`
/// is refused on it, and `purchase` and `settle_purchase` are refused with
/// `Invalidated`, whoever asks, whatever the payment, balance and report.
pub proof fn lemma_closed_is_terminal(
    registry: Registry,
    seller: Seq<char>,
    listing_id: usize,
    payment: u128,
    seller_balance: u128,
    report: LedgerReport,
)
    requires
        listing_id < registry.listings@.len(),
        !registry.listings@[listing_id as int].active(),
    ensures
        cancel_error(registry, seller, listing_id) is Some,
        purchase_error(registry, listing_id, payment, seller_balance) == Some(
            SettlementError::Invalidated,
        ),
        settle_error(registry, listing_id, payment, report) == Some(SettlementError::Invalidated),
{
}

} // verus!
