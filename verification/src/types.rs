//! Records and error kinds shared by the registry, the splitter and the
//! marketplace.

use vstd::prelude::*;

verus! {

/// What an operation can fail with. Every failure aborts the whole operation.
#[derive(Clone, Debug, PartialEq, Eq)]
pub enum SettlementError {
    InvalidBeneficiaryTable,
    AssetAlreadyExists,
    AssetNotFound,
    Unauthorized,
    ListingActive,
    InsufficientShares,
    ListingAlreadyActive,
    PriceMismatch,
    Invalidated,
    ShareTransferFailed,
    DistributionFailed { index: usize },
    EmptyBeneficiaryTable,
    ZeroPayment,
}

impl SettlementError {
    /// The name of the error's kind.
    pub open spec fn kind_text(&self) -> Seq<char> {
        match self {
            SettlementError::InvalidBeneficiaryTable => "InvalidBeneficiaryTable"@,
            SettlementError::AssetAlreadyExists => "AssetAlreadyExists"@,
            SettlementError::AssetNotFound => "AssetNotFound"@,
            SettlementError::Unauthorized => "Unauthorized"@,
            SettlementError::ListingActive => "ListingActive"@,
            SettlementError::InsufficientShares => "InsufficientShares"@,
            SettlementError::ListingAlreadyActive => "ListingAlreadyActive"@,
            SettlementError::PriceMismatch => "PriceMismatch"@,
            SettlementError::Invalidated => "Invalidated"@,
            SettlementError::ShareTransferFailed => "ShareTransferFailed"@,
            SettlementError::DistributionFailed { .. } => "DistributionFailed"@,
            SettlementError::EmptyBeneficiaryTable => "EmptyBeneficiaryTable"@,
            SettlementError::ZeroPayment => "ZeroPayment"@,
        }
    }

    /// The name of the error's kind, for messages and logs.
    pub fn kind(&self) -> (name: &'static str)
        ensures
            name@ == self.kind_text(),
    {
        match self {
            SettlementError::InvalidBeneficiaryTable => "InvalidBeneficiaryTable",
            SettlementError::AssetAlreadyExists => "AssetAlreadyExists",
            SettlementError::AssetNotFound => "AssetNotFound",
            SettlementError::Unauthorized => "Unauthorized",
            SettlementError::ListingActive => "ListingActive",
            SettlementError::InsufficientShares => "InsufficientShares",
            SettlementError::ListingAlreadyActive => "ListingAlreadyActive",
            SettlementError::PriceMismatch => "PriceMismatch",
            SettlementError::Invalidated => "Invalidated",
            SettlementError::ShareTransferFailed => "ShareTransferFailed",
            SettlementError::DistributionFailed { .. } => "DistributionFailed",
            SettlementError::EmptyBeneficiaryTable => "EmptyBeneficiaryTable",
            SettlementError::ZeroPayment => "ZeroPayment",
        }
    }
}

/// One row of a beneficiary table: a wallet and its share in basis points.
#[derive(Clone, Debug, PartialEq, Eq)]
pub struct Beneficiary {
    pub account: String,
    pub basis_points: u64,
}

/// The amount one wallet receives from one payment.
#[derive(Clone, Debug, PartialEq, Eq)]
pub struct Allocation {
    pub account: String,
    pub amount: u128,
}

/// A payment broken down over a beneficiary table, in table order.
#[derive(Clone, Debug, PartialEq, Eq)]
pub struct Distribution {
    pub payment: u128,
    pub allocations: Vec<Allocation>,
}

/// A registered asset with its share supply and its royalty table.
#[derive(Clone, Debug, PartialEq, Eq)]
pub struct IpAsset {
    pub asset_id: u64,
    pub creator: String,
    pub total_shares: u128,
    pub beneficiaries: Vec<Beneficiary>,
}

/// Where a listing stands. `Active` is the only state a listing can leave.
#[derive(Clone, Copy, Debug, PartialEq, Eq)]
pub enum ListingState {
    Active,
    Sold,
    Cancelled,
    Invalidated,
}

/// A seller's offer of a number of shares of one asset at a price.
#[derive(Clone, Debug, PartialEq, Eq)]
pub struct Listing {
    pub asset_id: u64,
    pub seller: String,
    pub price: u128,
    pub shares_offered: u128,
    pub state: ListingState,
}

/// The audit entry of one completed sale.
#[derive(Clone, Debug, PartialEq, Eq)]
pub struct SettlementRecord {
    pub listing_id: usize,
    pub buyer: String,
    pub total_paid: u128,
    pub distribution: Distribution,
    pub timestamp: u64,
}

/// Shares to be minted on the share ledger after a registration.
#[derive(Clone, Debug, PartialEq, Eq)]
pub struct MintOrder {
    pub to: String,
    pub amount: u128,
}

/// A movement between two accounts of one ledger.
#[derive(Clone, Debug, PartialEq, Eq)]
pub struct Transfer {
    pub from: String,
    pub to: String,
    pub amount: u128,
}

/// A distribution that fell through: the error to surface, the payouts that
/// had been made when one failed, and the transfers that take them back.
#[derive(Clone, Debug, PartialEq, Eq)]
pub struct FailedDistribution {
    pub error: SettlementError,
    pub made: Vec<Transfer>,
    pub undo: Vec<Transfer>,
}

/// What `purchase` asks the ledgers to do, in this order: move the shares
/// from seller to buyer, take the payment from the buyer into escrow, pay
/// out the distribution from escrow.
#[derive(Clone, Debug, PartialEq, Eq)]
pub struct PurchasePlan {
    pub listing_id: usize,
    pub asset_id: u64,
    pub share_transfer: Transfer,
    pub payment_transfer: Transfer,
    pub distribution: Distribution,
}

/// What the ledgers answered to a purchase plan.
#[derive(Clone, Copy, Debug, PartialEq, Eq)]
pub enum LedgerReport {
    /// Every transfer of the plan went through.
    Settled,
    /// The shares could not be moved; no payment was touched.
    ShareTransferFailed,
    /// The shares and the payment moved, and so did the payouts before
    /// allocation `index`; the payout of that allocation failed.
    DistributionFailed { index: usize },
}

impl Transfer {
    /// A copy of the transfer.
    pub fn duplicate(&self) -> (copy: Transfer)
        ensures
            copy == *self,
    {
        Transfer { from: self.from.clone(), to: self.to.clone(), amount: self.amount }
    }
}

impl Listing {
    pub open spec fn active(&self) -> bool {
        self.state is Active
    }

    /// Whether the listing is still open.
    pub fn is_active(&self) -> (open: bool)
        ensures
            open == self.active(),
    {
        match self.state {
            ListingState::Active => true,
            _ => false,
        }
    }
}

} // verus!
