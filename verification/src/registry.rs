//! The registry: asset records, listings and the settlement trail, held in
//! one store that is passed to every operation.

use vstd::prelude::*;
use crate::splitter::{adds_up_to_whole, total_basis_points};
use crate::types::{Beneficiary, IpAsset, Listing, MintOrder, SettlementError, SettlementRecord};

verus! {

/// Every entry of the table has a share above zero.
pub open spec fn positive_points(table: Seq<Beneficiary>) -> bool {
    forall|i: int| 0 <= i < table.len() ==> (#[trigger] table[i]).basis_points > 0
}

/// No wallet stands twice in the table.
pub open spec fn distinct_accounts(table: Seq<Beneficiary>) -> bool {
    forall|i: int, j: int|
        0 <= i < j < table.len() ==> (#[trigger] table[i]).account@ != (#[trigger] table[j]).account@
}

/// A table that an asset may carry: it adds up to the whole, every share is
/// above zero and every wallet stands once.
pub open spec fn valid_table(table: Seq<Beneficiary>) -> bool {
    &&& total_basis_points(table) == 10_000
    &&& positive_points(table)
    &&& distinct_accounts(table)
}

/// Whether an asset may carry `table`.
pub fn is_valid_table(table: &Vec<Beneficiary>) -> (valid: bool)
    ensures
        valid == valid_table(table@),
{
    if !adds_up_to_whole(table) {
        return false;
    }
    let mut i: usize = 0;
    while i < table.len()
        invariant
            0 <= i <= table.len(),
            forall|a: int| 0 <= a < i ==> (#[trigger] table@[a]).basis_points > 0,
            forall|a: int, b: int|
                0 <= a < b < i ==> (#[trigger] table@[a]).account@ != (#[trigger] table@[b]).account@,
        decreases table.len() - i,
    {
        if table[i].basis_points == 0 {
            return false;
        }
        let mut j: usize = 0;
        while j < i
            invariant
                0 <= j <= i < table.len(),
                forall|a: int| 0 <= a < j ==> (#[trigger] table@[a]).account@ != table@[i as int].account@,
            decreases i - j,
        {
            if table[j].account == table[i].account {
                return false;
            }
            j = j + 1;
        }
        i = i + 1;
    }
    true
}

/// The store of assets, listings and settlement records.
pub struct Registry {
    pub assets: Vec<IpAsset>,
    pub listings: Vec<Listing>,
    pub settlements: Vec<SettlementRecord>,
}

impl Registry {
    /// An asset with this id is registered.
    pub open spec fn has_asset(&self, asset_id: u64) -> bool {
        exists|i: int| 0 <= i < self.assets@.len() && (#[trigger] self.assets@[i]).asset_id == asset_id
    }

    /// Some active listing offers shares of this asset.
    pub open spec fn has_active_listing(&self, asset_id: u64) -> bool {
        exists|j: int|
            0 <= j < self.listings@.len() && (#[trigger] self.listings@[j]).asset_id == asset_id
                && self.listings@[j].active()
    }

    /// This seller has an active listing for this asset.
    pub open spec fn has_active_listing_of(&self, asset_id: u64, seller: Seq<char>) -> bool {
        exists|j: int|
            0 <= j < self.listings@.len() && (#[trigger] self.listings@[j]).asset_id == asset_id
                && self.listings@[j].seller@ == seller && self.listings@[j].active()
    }

    /// No two assets share an id.
    pub open spec fn unique_ids(&self) -> bool {
        forall|i: int, j: int|
            0 <= i < j < self.assets@.len() ==> (#[trigger] self.assets@[i]).asset_id != (
            #[trigger] self.assets@[j]).asset_id
    }

    /// Every asset carries a valid table.
    pub open spec fn tables_valid(&self) -> bool {
        forall|i: int|
            0 <= i < self.assets@.len() ==> valid_table((#[trigger] self.assets@[i]).beneficiaries@)
    }

    /// Every listing has a price and an offer above zero.
    pub open spec fn listings_sound(&self) -> bool {
        forall|j: int|
            0 <= j < self.listings@.len() ==> {
                &&& (#[trigger] self.listings@[j]).price > 0
                &&& self.listings@[j].shares_offered > 0
            }
    }

    /// No seller has two active listings for one asset.
    pub open spec fn one_active_listing(&self) -> bool {
        forall|j: int, k: int|
            0 <= j < k < self.listings@.len() && (#[trigger] self.listings@[j]).active() && (
            #[trigger] self.listings@[k]).active() ==> !(self.listings@[j].asset_id
                == self.listings@[k].asset_id && self.listings@[j].seller@
                == self.listings@[k].seller@)
    }

    /// The store's invariant: asset ids are unique, every asset carries a
    /// valid table, every listing has a price and an offer above zero, and
    /// no seller has two active listings for one asset.
    pub open spec fn wf(&self) -> bool {
        &&& self.unique_ids()
        &&& self.tables_valid()
        &&& self.listings_sound()
        &&& self.one_active_listing()
    }

    /// The error `register_asset` gives, if any.
    pub open spec fn register_error(&self, asset_id: u64, table: Seq<Beneficiary>) -> Option<
        SettlementError,
    > {
        if !valid_table(table) {
            Some(SettlementError::InvalidBeneficiaryTable)
        } else if self.has_asset(asset_id) {
            Some(SettlementError::AssetAlreadyExists)
        } else {
            None
        }
    }

    /// The error `update_beneficiaries` gives, if any.
    pub open spec fn update_error(
        &self,
        asset_id: u64,
        caller: Seq<char>,
        new_table: Seq<Beneficiary>,
    ) -> Option<SettlementError> {
        if !valid_table(new_table) {
            Some(SettlementError::InvalidBeneficiaryTable)
        } else if !self.has_asset(asset_id) {
            Some(SettlementError::AssetNotFound)
        } else if self.asset_of(asset_id).creator@ != caller {
            Some(SettlementError::Unauthorized)
        } else if self.has_active_listing(asset_id) {
            Some(SettlementError::ListingActive)
        } else {
            None
        }
    }

    /// The position of the asset with this id.
    pub open spec fn position_of(&self, asset_id: u64) -> int {
        choose|i: int| 0 <= i < self.assets@.len() && (#[trigger] self.assets@[i]).asset_id == asset_id
    }

    /// The record of the asset with this id.
    pub open spec fn asset_of(&self, asset_id: u64) -> IpAsset {
        self.assets@[self.position_of(asset_id)]
    }

    /// An empty store.
    pub fn new() -> (registry: Registry)
        ensures
            registry.wf(),
            registry.assets@.len() == 0,
            registry.listings@.len() == 0,
            registry.settlements@.len() == 0,
    {
        Registry { assets: Vec::new(), listings: Vec::new(), settlements: Vec::new() }
    }

    /// Whether the store meets its invariant; for a store that was put
    /// together from stored records rather than by the operations.
    pub fn is_well_formed(&self) -> (ok: bool)
        ensures
            ok == self.wf(),
    {
        let mut i: usize = 0;
        while i < self.assets.len()
            invariant
                0 <= i <= self.assets@.len(),
                forall|a: int, b: int|
                    0 <= a < b < i ==> (#[trigger] self.assets@[a]).asset_id != (
                    #[trigger] self.assets@[b]).asset_id,
                forall|a: int|
                    0 <= a < i ==> valid_table((#[trigger] self.assets@[a]).beneficiaries@),
            decreases self.assets@.len() - i,
        {
            if !is_valid_table(&self.assets[i].beneficiaries) {
                return false;
            }
            let mut a: usize = 0;
            while a < i
                invariant
                    0 <= a <= i < self.assets@.len(),
                    forall|c: int|
                        0 <= c < a ==> (#[trigger] self.assets@[c]).asset_id
                            != self.assets@[i as int].asset_id,
                decreases i - a,
            {
                if self.assets[a].asset_id == self.assets[i].asset_id {
                    return false;
                }
                a = a + 1;
            }
            i = i + 1;
        }
        let mut j: usize = 0;
        while j < self.listings.len()
            invariant
                0 <= j <= self.listings@.len(),
                self.unique_ids(),
                self.tables_valid(),
                forall|a: int|
                    0 <= a < j ==> {
                        &&& (#[trigger] self.listings@[a]).price > 0
                        &&& self.listings@[a].shares_offered > 0
                    },
                forall|a: int, b: int|
                    0 <= a < b < j && (#[trigger] self.listings@[a]).active() && (
                    #[trigger] self.listings@[b]).active() ==> !(self.listings@[a].asset_id
                        == self.listings@[b].asset_id && self.listings@[a].seller@
                        == self.listings@[b].seller@),
            decreases self.listings@.len() - j,
        {
            if self.listings[j].price == 0 || self.listings[j].shares_offered == 0 {
                return false;
            }
            if self.listings[j].is_active() {
                let mut a: usize = 0;
                while a < j
                    invariant
                        0 <= a <= j < self.listings@.len(),
                        self.listings@[j as int].active(),
                        forall|c: int|
                            0 <= c < a && (#[trigger] self.listings@[c]).active() ==> !(
                            self.listings@[c].asset_id == self.listings@[j as int].asset_id
                                && self.listings@[c].seller@ == self.listings@[j as int].seller@),
                    decreases j - a,
                {
                    if self.listings[a].is_active() && self.listings[a].asset_id
                        == self.listings[j].asset_id && self.listings[a].seller
                        == self.listings[j].seller {
                        return false;
                    }
                    a = a + 1;
                }
            }
            j = j + 1;
        }
        true
    }

    /// Where the asset with this id stands, if it is registered.
    pub fn find_asset(&self, asset_id: u64) -> (found: Option<usize>)
        ensures
            match found {
                Some(i) => i < self.assets@.len() && self.assets@[i as int].asset_id == asset_id
                    && self.has_asset(asset_id) && (self.wf() ==> i == self.position_of(asset_id)),
                None => !self.has_asset(asset_id),
            },
    {
        let mut i: usize = 0;
        while i < self.assets.len()
            invariant
                0 <= i <= self.assets@.len(),
                forall|a: int| 0 <= a < i ==> (#[trigger] self.assets@[a]).asset_id != asset_id,
            decreases self.assets@.len() - i,
        {
            if self.assets[i].asset_id == asset_id {
                return Some(i);
            }
            i = i + 1;
        }
        None
    }

    /// Whether some active listing offers shares of this asset.
    pub fn asset_is_listed(&self, asset_id: u64) -> (listed: bool)
        ensures
            listed == self.has_active_listing(asset_id),
    {
        let mut j: usize = 0;
        while j < self.listings.len()
            invariant
                0 <= j <= self.listings@.len(),
                forall|a: int|
                    0 <= a < j ==> !((#[trigger] self.listings@[a]).asset_id == asset_id
                        && self.listings@[a].active()),
            decreases self.listings@.len() - j,
        {
            if self.listings[j].asset_id == asset_id && self.listings[j].is_active() {
                return true;
            }
            j = j + 1;
        }
        false
    }

    /// Registers an asset under `asset_id`.
    ///
    /// A table that is not valid is refused with `InvalidBeneficiaryTable`,
    /// then an id that is taken with `AssetAlreadyExists`; the store is then
    /// left as it was. Otherwise the record is appended and the order to
    /// mint the whole supply to the creator is handed back.
    pub fn register_asset(
        &mut self,
        asset_id: u64,
        creator: String,
        total_shares: u128,
        beneficiaries: Vec<Beneficiary>,
    ) -> (result: Result<MintOrder, SettlementError>)
        requires
            old(self).wf(),
        ensures
            final(self).wf(),
            final(self).listings == old(self).listings,
            final(self).settlements == old(self).settlements,
            total_basis_points(beneficiaries@) != 10_000 ==> result == Err::<
                MintOrder,
                SettlementError,
            >(SettlementError::InvalidBeneficiaryTable),
            match result {
                Ok(order) => {
                    &&& old(self).register_error(asset_id, beneficiaries@) is None
                    &&& order.to@ == creator@
                    &&& order.amount == total_shares
                    &&& final(self).assets@ == old(self).assets@.push(
                        (IpAsset { asset_id, creator, total_shares, beneficiaries }),
                    )
                },
                Err(error) => {
                    &&& *final(self) == *old(self)
                    &&& old(self).register_error(asset_id, beneficiaries@) == Some(error)
                },
            },
    {
        if !is_valid_table(&beneficiaries) {
            return Err(SettlementError::InvalidBeneficiaryTable);
        }
        if self.find_asset(asset_id).is_some() {
            return Err(SettlementError::AssetAlreadyExists);
        }
        let order = MintOrder { to: creator.clone(), amount: total_shares };
        self.assets.push(IpAsset { asset_id, creator, total_shares, beneficiaries });
        Ok(order)
    }

    /// Replaces the royalty table of an asset.
    ///
    /// Refused with `InvalidBeneficiaryTable` for a table that is not valid,
    /// then with `AssetNotFound` for an unknown id, then with `Unauthorized`
    /// unless the caller is the creator, then with `ListingActive` while an
    /// active listing offers the asset. A refusal leaves the store as it was.
    pub fn update_beneficiaries(
        &mut self,
        asset_id: u64,
        caller: &String,
        new_table: Vec<Beneficiary>,
    ) -> (result: Result<(), SettlementError>)
        requires
            old(self).wf(),
        ensures
            final(self).wf(),
            final(self).listings == old(self).listings,
            final(self).settlements == old(self).settlements,
            total_basis_points(new_table@) != 10_000 ==> result == Err::<(), SettlementError>(
                SettlementError::InvalidBeneficiaryTable,
            ),
            match result {
                Ok(_) => {
                    &&& old(self).update_error(asset_id, caller@, new_table@) is None
                    &&& final(self).assets@ == old(self).assets@.update(
                        old(self).position_of(asset_id),
                        (IpAsset { beneficiaries: new_table, ..old(self).asset_of(asset_id) }),
                    )
                },
                Err(error) => {
                    &&& *final(self) == *old(self)
                    &&& old(self).update_error(asset_id, caller@, new_table@) == Some(error)
                },
            },
    {
        if !is_valid_table(&new_table) {
            return Err(SettlementError::InvalidBeneficiaryTable);
        }
        let position: usize = match self.find_asset(asset_id) {
            Some(i) => i,
            None => {
                return Err(SettlementError::AssetNotFound);
            },
        };
        if !(self.assets[position].creator == *caller) {
            return Err(SettlementError::Unauthorized);
        }
        if self.asset_is_listed(asset_id) {
            return Err(SettlementError::ListingActive);
        }
        let creator = self.assets[position].creator.clone();
        let total_shares: u128 = self.assets[position].total_shares;
        self.assets.set(position, IpAsset { asset_id, creator, total_shares, beneficiaries: new_table });
        Ok(())
    }

    /// The record of an asset, or `AssetNotFound`.
    pub fn get_asset(&self, asset_id: u64) -> (result: Result<&IpAsset, SettlementError>)
        ensures
            match result {
                Ok(asset) => self.has_asset(asset_id) && asset.asset_id == asset_id && exists|i: int|
                    0 <= i < self.assets@.len() && *asset == #[trigger] self.assets@[i],
                Err(error) => !self.has_asset(asset_id) && error == SettlementError::AssetNotFound,
            },
            self.wf() ==> (result matches Ok(asset) ==> *asset == self.asset_of(asset_id)),
    {
        match self.find_asset(asset_id) {
            Some(i) => Ok(&self.assets[i]),
            None => Err(SettlementError::AssetNotFound),
        }
    }
}

} // verus!
