use vstd::prelude::*;

use crate::claims::prior_status;
use crate::errors::ContributorError;
use crate::state::{find_buyer, sale_inv, slot_inv, Config, Contributor, SaleEntry};
use crate::types::{asset_eq, AssetInfo, BuyerStatus, SaleStatus, SaleTimes};

verus! {

impl Contributor {
    /// The chain-wide configuration.
    pub fn query_config(&self) -> (r: &Config)
        ensures
            *r == self.config,
    {
        &self.config
    }

    /// A sale's full record: terms, status, times and per-slot ledgers.
    pub fn query_sale(&self, sale_id: &[u8]) -> (r: Result<&SaleEntry, ContributorError>)
        requires
            self.inv(),
        ensures
            match r {
                Ok(e) => self.has_sale(sale_id@) && *e == self.sale_at(sale_id@),
                Err(e) => !self.has_sale(sale_id@) && e == ContributorError::UnknownSale,
            },
    {
        match self.find_sale(sale_id) {
            None => Err(ContributorError::UnknownSale),
            Some(i) => Ok(&self.sales[i]),
        }
    }

    /// A sale's lifecycle status.
    pub fn query_sale_status(&self, sale_id: &[u8]) -> (r: Result<SaleStatus, ContributorError>)
        requires
            self.inv(),
        ensures
            match r {
                Ok(st) => self.has_sale(sale_id@) && st == self.sale_at(sale_id@).status,
                Err(e) => !self.has_sale(sale_id@) && e == ContributorError::UnknownSale,
            },
    {
        match self.find_sale(sale_id) {
            None => Err(ContributorError::UnknownSale),
            Some(i) => Ok(self.sales[i].status),
        }
    }

    /// A sale's time window.
    pub fn query_sale_times(&self, sale_id: &[u8]) -> (r: Result<SaleTimes, ContributorError>)
        requires
            self.inv(),
        ensures
            match r {
                Ok(t) => self.has_sale(sale_id@) && t == self.sale_at(sale_id@).times,
                Err(e) => !self.has_sale(sale_id@) && e == ContributorError::UnknownSale,
            },
    {
        match self.find_sale(sale_id) {
            None => Err(ContributorError::UnknownSale),
            Some(i) => Ok(self.sales[i].times),
        }
    }

    /// The running contribution total of one slot.
    pub fn query_total_contribution(&self, sale_id: &[u8], token_index: u8) -> (r: Result<
        u128,
        ContributorError,
    >)
        requires
            self.inv(),
        ensures
            match r {
                Ok(a) => {
                    &&& self.has_sale(sale_id@)
                    &&& (token_index as int) < self.sale_at(sale_id@).slots@.len()
                    &&& a == self.sale_at(sale_id@).slots@[token_index as int].total
                },
                Err(e) => if !self.has_sale(sale_id@) {
                    e == ContributorError::UnknownSale
                } else {
                    (token_index as int) >= self.sale_at(sale_id@).slots@.len() && e
                        == ContributorError::InvalidAssetSlot
                },
            },
    {
        let i = match self.find_sale(sale_id) {
            None => {
                return Err(ContributorError::UnknownSale);
            },
            Some(i) => i,
        };
        let e = &self.sales[i];
        let idx = token_index as usize;
        if idx >= e.slots.len() {
            return Err(ContributorError::InvalidAssetSlot);
        }
        Ok(e.slots[idx].total)
    }

    /// The allocation written at sealing for one slot; only a sealed sale
    /// has one.
    pub fn query_total_allocation(&self, sale_id: &[u8], token_index: u8) -> (r: Result<
        u128,
        ContributorError,
    >)
        requires
            self.inv(),
        ensures
            match r {
                Ok(a) => {
                    &&& self.has_sale(sale_id@)
                    &&& (token_index as int) < self.sale_at(sale_id@).slots@.len()
                    &&& self.sale_at(sale_id@).status == SaleStatus::Sealed
                    &&& a == self.sale_at(sale_id@).slots@[token_index as int].allocation
                },
                Err(e) => if !self.has_sale(sale_id@) {
                    e == ContributorError::UnknownSale
                } else if (token_index as int) >= self.sale_at(sale_id@).slots@.len() {
                    e == ContributorError::InvalidAssetSlot
                } else {
                    self.sale_at(sale_id@).status != SaleStatus::Sealed && e
                        == ContributorError::SaleNotSealed
                },
            },
    {
        let i = match self.find_sale(sale_id) {
            None => {
                return Err(ContributorError::UnknownSale);
            },
            Some(i) => i,
        };
        let e = &self.sales[i];
        let idx = token_index as usize;
        if idx >= e.slots.len() {
            return Err(ContributorError::InvalidAssetSlot);
        }
        match e.status {
            SaleStatus::Sealed => {},
            _ => {
                return Err(ContributorError::SaleNotSealed);
            },
        }
        Ok(e.slots[idx].allocation)
    }

    /// The asset accepted for one slot.
    pub fn query_accepted_asset(&self, sale_id: &[u8], token_index: u8) -> (r: Result<
        &AssetInfo,
        ContributorError,
    >)
        requires
            self.inv(),
        ensures
            match r {
                Ok(a) => {
                    &&& self.has_sale(sale_id@)
                    &&& (token_index as int) < self.sale_at(sale_id@).slots@.len()
                    &&& *a == self.sale_at(sale_id@).slots@[token_index as int].asset
                },
                Err(e) => if !self.has_sale(sale_id@) {
                    e == ContributorError::UnknownSale
                } else {
                    (token_index as int) >= self.sale_at(sale_id@).slots@.len() && e
                        == ContributorError::InvalidAssetSlot
                },
            },
    {
        let i = match self.find_sale(sale_id) {
            None => {
                return Err(ContributorError::UnknownSale);
            },
            Some(i) => i,
        };
        let e = &self.sales[i];
        let idx = token_index as usize;
        if idx >= e.slots.len() {
            return Err(ContributorError::InvalidAssetSlot);
        }
        Ok(&e.slots[idx].asset)
    }

    /// The slot index under which an asset is accepted for a sale: the first
    /// slot whose asset identity matches.
    pub fn query_asset_index(&self, sale_id: &[u8], asset_info: &AssetInfo) -> (r: Result<
        u8,
        ContributorError,
    >)
        requires
            self.inv(),
        ensures
            match r {
                Ok(ti) => {
                    &&& self.has_sale(sale_id@)
                    &&& (ti as int) < self.sale_at(sale_id@).slots@.len()
                    &&& self.sale_at(sale_id@).slots@[ti as int].asset.key() == asset_info.key()
                    &&& forall|k: int|
                        0 <= k < ti as int ==> (#[trigger] self.sale_at(
                            sale_id@,
                        ).slots@[k].asset.key()) != asset_info.key()
                },
                Err(e) => if !self.has_sale(sale_id@) {
                    e == ContributorError::UnknownSale
                } else {
                    &&& e == ContributorError::InvalidAssetSlot
                    &&& forall|k: int|
                        0 <= k < self.sale_at(sale_id@).slots@.len() ==> (#[trigger] self.sale_at(
                            sale_id@,
                        ).slots@[k].asset.key()) != asset_info.key()
                },
            },
    {
        let i = match self.find_sale(sale_id) {
            None => {
                return Err(ContributorError::UnknownSale);
            },
            Some(i) => i,
        };
        let e = &self.sales[i];
        proof {
            assert(sale_inv(self.sales@[i as int]));
        }
        let n = e.slots.len();
        let mut j: usize = 0;
        while j < n
            invariant
                n == e.slots@.len(),
                n <= 256,
                0 <= j <= n,
                self.has_sale(sale_id@),
                self.sale_at(sale_id@) == *e,
                forall|k: int|
                    0 <= k < j ==> (#[trigger] e.slots@[k].asset.key()) != asset_info.key(),
            decreases n - j,
        {
            if asset_eq(&e.slots[j].asset, asset_info) {
                proof {
                    assert(self.sale_at(sale_id@) == *e);
                    assert forall|k: int| 0 <= k < j as int implies (#[trigger] self.sale_at(
                        sale_id@,
                    ).slots@[k].asset.key()) != asset_info.key() by {
                        assert(0 <= k < e.slots@.len());
                        assert(e.slots@[k].asset.key() != asset_info.key());
                    }
                }
                return Ok(j as u8);
            }
            j += 1;
        }
        proof {
            assert(self.sale_at(sale_id@) == *e);
            assert forall|k: int| 0 <= k < self.sale_at(sale_id@).slots@.len() implies (
            #[trigger] self.sale_at(sale_id@).slots@[k].asset.key()) != asset_info.key() by {
                assert(0 <= k < e.slots@.len());
                assert(e.slots@[k].asset.key() != asset_info.key());
            }
        }
        Err(ContributorError::InvalidAssetSlot)
    }

    /// A buyer's claim flags for one slot; a buyer without a record has all
    /// flags unset.
    pub fn query_buyer_status(&self, sale_id: &[u8], token_index: u8, buyer: &[u8]) -> (r: Result<
        BuyerStatus,
        ContributorError,
    >)
        requires
            self.inv(),
        ensures
            match r {
                Ok(st) => {
                    &&& self.has_sale(sale_id@)
                    &&& (token_index as int) < self.sale_at(sale_id@).slots@.len()
                    &&& st == prior_status(
                        self.sale_at(sale_id@).slots@[token_index as int].buyers@,
                        buyer@,
                    )
                },
                Err(e) => if !self.has_sale(sale_id@) {
                    e == ContributorError::UnknownSale
                } else {
                    (token_index as int) >= self.sale_at(sale_id@).slots@.len() && e
                        == ContributorError::InvalidAssetSlot
                },
            },
    {
        let i = match self.find_sale(sale_id) {
            None => {
                return Err(ContributorError::UnknownSale);
            },
            Some(i) => i,
        };
        let e = &self.sales[i];
        let idx = token_index as usize;
        if idx >= e.slots.len() {
            return Err(ContributorError::InvalidAssetSlot);
        }
        proof {
            assert(sale_inv(self.sales@[i as int]));
            assert(slot_inv(self.sales@[i as int].slots@[idx as int]));
        }
        match find_buyer(&e.slots[idx].buyers, buyer) {
            Some(k) => Ok(e.slots[idx].buyers[k].status),
            None => Ok(BuyerStatus::unset()),
        }
    }

    /// The per-slot contribution totals a contributor reports to the
    /// conductor once the sale's window has closed.  The host packages them
    /// into an outbound attestation message.
    pub fn attest_contributions(&self, now: u64, sale_id: &[u8]) -> (r: Result<
        Vec<u128>,
        ContributorError,
    >)
        requires
            self.inv(),
        ensures
            match r {
                Ok(v) => {
                    &&& self.has_sale(sale_id@)
                    &&& now > self.sale_at(sale_id@).times.end
                    &&& v@.len() == self.sale_at(sale_id@).slots@.len()
                    &&& forall|k: int|
                        0 <= k < v@.len() ==> (#[trigger] v@[k]) == self.sale_at(
                            sale_id@,
                        ).slots@[k].total
                },
                Err(e) => if !self.has_sale(sale_id@) {
                    e == ContributorError::UnknownSale
                } else {
                    now <= self.sale_at(sale_id@).times.end && e
                        == ContributorError::SaleNotYetEnded
                },
            },
    {
        let i = match self.find_sale(sale_id) {
            None => {
                return Err(ContributorError::UnknownSale);
            },
            Some(i) => i,
        };
        let e = &self.sales[i];
        if now <= e.times.end {
            return Err(ContributorError::SaleNotYetEnded);
        }
        let n = e.slots.len();
        let mut totals: Vec<u128> = Vec::new();
        let mut j: usize = 0;
        while j < n
            invariant
                n == e.slots@.len(),
                0 <= j <= n,
                totals@.len() == j,
                forall|k: int| 0 <= k < j ==> (#[trigger] totals@[k]) == e.slots@[k].total,
            decreases n - j,
        {
            totals.push(e.slots[j].total);
            j += 1;
        }
        Ok(totals)
    }
}

} // verus!
