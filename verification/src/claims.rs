use vstd::prelude::*;

use crate::errors::ContributorError;
use crate::ledger::unset_status;
use crate::state::{
    blank_buyer, blank_sale, blank_slot, buyer_at, buyers_unique, find_buyer, has_buyer,
    lemma_buyers_push_frame, lemma_buyers_update_frame, lemma_sale_update_frame,
    lemma_sum_amounts_push, lemma_sum_amounts_update, sale_inv, slot_inv, BuyerRecord,
    Contributor,
};
use crate::types::{copy_asset, copy_bytes, AssetTransfer, BuyerStatus, SaleStatus, TokenTransfer};
use vstd::arithmetic::div_mod::{
    lemma_div_is_ordered, lemma_div_multiples_vanish, lemma_fundamental_div_mod,
    lemma_mod_division_less_than_divisor,
};
use vstd::arithmetic::mul::{
    lemma_mul_inequality, lemma_mul_is_commutative, lemma_mul_is_distributive_add,
    lemma_mul_nonnegative,
};
use vstd::pervasive::VecAdditionalExecFns;

verus! {

/// The rounded-down share of `alloc` owed against a contribution of
/// `contributed` out of `total`: `alloc * contributed / total`, and zero when the
/// slot collected nothing at all.  Rounding down means division remainders
/// accrue to the sale, never to a buyer.
pub open spec fn share(alloc: u128, contributed: int, total: u128) -> int {
    if total == 0 {
        0
    } else {
        (alloc as int * contributed) / (total as int)
    }
}

/// The buyer's reconciled contribution, zero if they never contributed.
pub open spec fn prior_amount(bs: Seq<BuyerRecord>, buyer: Seq<u8>) -> int {
    if has_buyer(bs, buyer) {
        buyer_at(bs, buyer).amount as int
    } else {
        0
    }
}

/// The buyer's unconfirmed part, zero if they never contributed.
pub open spec fn prior_unconfirmed(bs: Seq<BuyerRecord>, buyer: Seq<u8>) -> int {
    if has_buyer(bs, buyer) {
        buyer_at(bs, buyer).unconfirmed as int
    } else {
        0
    }
}

/// Whether the buyer's latest batch was reconciled; false without a record.
pub open spec fn prior_confirmed(bs: Seq<BuyerRecord>, buyer: Seq<u8>) -> bool {
    if has_buyer(bs, buyer) {
        buyer_at(bs, buyer).escrow_confirmed
    } else {
        false
    }
}

/// The buyer's claim flags; all unset without a record.
pub open spec fn prior_status(bs: Seq<BuyerRecord>, buyer: Seq<u8>) -> BuyerStatus {
    if has_buyer(bs, buyer) {
        buyer_at(bs, buyer).status
    } else {
        unset_status()
    }
}

/// Effect common to all three claims: the buyer's flags become `st1` and
/// absolutely nothing else in the whole state moves — not the ledger
/// amounts, not the totals, not any other sale or buyer.
pub open spec fn claim_effect(
    pre: Contributor,
    post: Contributor,
    sid: Seq<u8>,
    idx: int,
    buyer: Seq<u8>,
    st1: BuyerStatus,
) -> bool {
    &&& post.config == pre.config
    &&& pre.has_sale(sid)
    &&& post.has_sale(sid)
    &&& forall|s: Seq<u8>| post.has_sale(s) == pre.has_sale(s)
    &&& forall|s: Seq<u8>| pre.has_sale(s) && s != sid ==> post.sale_at(s) == pre.sale_at(s)
    &&& ({
        let e0 = pre.sale_at(sid);
        let e1 = post.sale_at(sid);
        &&& e1.id == e0.id
        &&& e1.token == e0.token
        &&& e1.times == e0.times
        &&& e1.status == e0.status
        &&& e1.slots@.len() == e0.slots@.len()
        &&& forall|j: int|
            0 <= j < e0.slots@.len() && j != idx ==> (#[trigger] e1.slots@[j]) == e0.slots@[j]
        &&& ({
            let s0 = e0.slots@[idx];
            let s1 = e1.slots@[idx];
            &&& s1.asset == s0.asset
            &&& s1.decimals == s0.decimals
            &&& s1.cap == s0.cap
            &&& s1.total == s0.total
            &&& s1.allocation == s0.allocation
            &&& s1.excess == s0.excess
            &&& has_buyer(s1.buyers@, buyer)
            &&& buyer_at(s1.buyers@, buyer).buyer@ == buyer
            &&& buyer_at(s1.buyers@, buyer).amount as int == prior_amount(s0.buyers@, buyer)
            &&& buyer_at(s1.buyers@, buyer).unconfirmed as int == prior_unconfirmed(
                s0.buyers@,
                buyer,
            )
            &&& buyer_at(s1.buyers@, buyer).escrow_confirmed == prior_confirmed(s0.buyers@, buyer)
            &&& buyer_at(s1.buyers@, buyer).status == st1
            &&& forall|x: Seq<u8>|
                x != buyer ==> has_buyer(s1.buyers@, x) == has_buyer(s0.buyers@, x)
            &&& forall|x: Seq<u8>|
                has_buyer(s0.buyers@, x) && x != buyer ==> buyer_at(s1.buyers@, x) == buyer_at(
                    s0.buyers@,
                    x,
                )
        })
    })
}

/// The error, if any, that an allocation claim must return on `pre`.
pub open spec fn claim_allocation_err(
    pre: Contributor,
    sid: Seq<u8>,
    idx: int,
    buyer: Seq<u8>,
) -> Option<ContributorError> {
    if !pre.has_sale(sid) {
        Some(ContributorError::UnknownSale)
    } else if pre.sale_at(sid).status != SaleStatus::Sealed {
        Some(ContributorError::SaleNotSealed)
    } else if idx < 0 || idx >= pre.sale_at(sid).slots@.len() {
        Some(ContributorError::InvalidAssetSlot)
    } else if prior_status(pre.sale_at(sid).slots@[idx].buyers@, buyer).allocation_claimed {
        Some(ContributorError::AlreadyClaimed)
    } else if ({
        let sl = pre.sale_at(sid).slots@[idx];
        sl.total != 0 && sl.allocation as int * prior_amount(sl.buyers@, buyer) > u128::MAX as int
    }) {
        Some(ContributorError::ArithmeticOverflow)
    } else {
        None
    }
}

/// The error, if any, that a refund claim must return on `pre`.
pub open spec fn claim_refund_err(pre: Contributor, sid: Seq<u8>, idx: int, buyer: Seq<u8>) -> Option<
    ContributorError,
> {
    if !pre.has_sale(sid) {
        Some(ContributorError::UnknownSale)
    } else if pre.sale_at(sid).status != SaleStatus::Aborted {
        Some(ContributorError::SaleNotAborted)
    } else if idx < 0 || idx >= pre.sale_at(sid).slots@.len() {
        Some(ContributorError::InvalidAssetSlot)
    } else if prior_status(pre.sale_at(sid).slots@[idx].buyers@, buyer).refund_claimed {
        Some(ContributorError::AlreadyClaimed)
    } else {
        None
    }
}

/// The error, if any, that an excess-refund claim must return on `pre`.
pub open spec fn claim_excess_refund_err(
    pre: Contributor,
    sid: Seq<u8>,
    idx: int,
    buyer: Seq<u8>,
) -> Option<ContributorError> {
    if !pre.has_sale(sid) {
        Some(ContributorError::UnknownSale)
    } else if pre.sale_at(sid).status != SaleStatus::Sealed {
        Some(ContributorError::SaleNotSealed)
    } else if idx < 0 || idx >= pre.sale_at(sid).slots@.len() {
        Some(ContributorError::InvalidAssetSlot)
    } else if prior_status(pre.sale_at(sid).slots@[idx].buyers@, buyer).excess_refund_claimed {
        Some(ContributorError::AlreadyClaimed)
    } else if ({
        let sl = pre.sale_at(sid).slots@[idx];
        sl.total != 0 && sl.excess as int * prior_amount(sl.buyers@, buyer) > u128::MAX as int
    }) {
        Some(ContributorError::ArithmeticOverflow)
    } else {
        None
    }
}

impl Contributor {
    /// Pay out a buyer's allocation of the sold token from a sealed sale:
    /// `TotalAllocation * contribution / TotalContribution`, rounded down,
    /// exactly once per (sale, slot, buyer).
    pub fn claim_allocation(&mut self, sale_id: &[u8], token_index: u8, buyer: &[u8]) -> (r: Result<
        TokenTransfer,
        ContributorError,
    >)
        requires
            old(self).inv(),
        ensures
            final(self).inv(),
            final(self).consumed@ == old(self).consumed@,
            match r {
                Err(e) => {
                    &&& *final(self) == *old(self)
                    &&& claim_allocation_err(*old(self), sale_id@, token_index as int, buyer@)
                        == Some(e)
                },
                Ok(t) => ({
                    let e0 = old(self).sale_at(sale_id@);
                    let s0 = e0.slots@[token_index as int];
                    let st0 = prior_status(s0.buyers@, buyer@);
                    &&& claim_allocation_err(*old(self), sale_id@, token_index as int, buyer@)
                        is None
                    &&& claim_effect(
                        *old(self),
                        *final(self),
                        sale_id@,
                        token_index as int,
                        buyer@,
                        (BuyerStatus {
                            allocation_claimed: true,
                            refund_claimed: st0.refund_claimed,
                            excess_refund_claimed: st0.excess_refund_claimed,
                        }),
                    )
                    &&& t.token@ == e0.token@
                    &&& t.amount as int == share(
                        s0.allocation,
                        prior_amount(s0.buyers@, buyer@),
                        s0.total,
                    )
                }),
            },
    {
        let i = match self.find_sale(sale_id) {
            None => {
                return Err(ContributorError::UnknownSale);
            },
            Some(i) => i,
        };
        let e = &self.sales[i];
        match e.status {
            SaleStatus::Sealed => {},
            _ => {
                return Err(ContributorError::SaleNotSealed);
            },
        }
        let idx = token_index as usize;
        if idx >= e.slots.len() {
            return Err(ContributorError::InvalidAssetSlot);
        }
        proof {
            assert(sale_inv(self.sales@[i as int]));
            assert(slot_inv(self.sales@[i as int].slots@[idx as int]));
        }
        let sl_ref = &e.slots[idx];
        let k_opt = find_buyer(&sl_ref.buyers, buyer);
        let contributed: u128;
        let already: bool;
        match k_opt {
            Some(k) => {
                let b = &sl_ref.buyers[k];
                contributed = b.amount;
                already = b.status.allocation_claimed;
            },
            None => {
                contributed = 0;
                already = false;
            },
        }
        if already {
            return Err(ContributorError::AlreadyClaimed);
        }
        let total = sl_ref.total;
        let alloc = sl_ref.allocation;
        let payout: u128 = if total == 0 {
            0
        } else {
            match alloc.checked_mul(contributed) {
                None => {
                    return Err(ContributorError::ArithmeticOverflow);
                },
                Some(p) => p / total,
            }
        };
        let token = copy_bytes(e.token.as_slice());
        let ghost pre = *self;
        let ghost oe = pre.sales@[i as int];
        let ghost osl = oe.slots@[idx as int];
        let mut entry = blank_sale();
        self.sales.set_and_swap(i, &mut entry);
        let mut sl = blank_slot();
        entry.slots.set_and_swap(idx, &mut sl);
        match k_opt {
            Some(k) => {
                let mut b = blank_buyer();
                sl.buyers.set_and_swap(k, &mut b);
                b.status = BuyerStatus {
                    allocation_claimed: true,
                    refund_claimed: b.status.refund_claimed,
                    excess_refund_claimed: b.status.excess_refund_claimed,
                };
                let ghost nb = b;
                sl.buyers.set(k, b);
                proof {
                    assert(sl.buyers@ =~= osl.buyers@.update(k as int, nb));
                    lemma_buyers_update_frame(osl.buyers@, sl.buyers@, k as int, buyer@);
                    lemma_sum_amounts_update(osl.buyers@, k as int, nb);
                }
            },
            None => {
                let rec = BuyerRecord {
                    buyer: copy_bytes(buyer),
                    amount: 0,
                    unconfirmed: 0,
                    escrow_confirmed: false,
                    status: BuyerStatus {
                        allocation_claimed: true,
                        refund_claimed: false,
                        excess_refund_claimed: false,
                    },
                };
                let ghost grec = rec;
                proof {
                    lemma_buyers_push_frame(osl.buyers@, grec);
                    lemma_sum_amounts_push(osl.buyers@, grec);
                }
                sl.buyers.push(rec);
            },
        }
        let ghost nsl = sl;
        entry.slots.set(idx, sl);
        let ghost ne = entry;
        self.sales.set(i, entry);
        proof {
            assert(ne.slots@ =~= oe.slots@.update(idx as int, nsl));
            assert(self.sales@ =~= pre.sales@.update(i as int, ne));
            lemma_sale_update_frame(pre, *self, i as int, sale_id@);
            assert forall|ii: int| 0 <= ii < self.sales@.len() implies sale_inv(
                #[trigger] self.sales@[ii],
            ) by {
                if ii != i as int {
                    assert(self.sales@[ii] == pre.sales@[ii]);
                    assert(sale_inv(pre.sales@[ii]));
                } else {
                    assert(sale_inv(oe));
                    assert forall|j: int| 0 <= j < ne.slots@.len() implies slot_inv(
                        #[trigger] ne.slots@[j],
                    ) by {
                        if j != idx as int {
                            assert(ne.slots@[j] == oe.slots@[j]);
                            assert(slot_inv(oe.slots@[j]));
                        } else {
                            assert(buyers_unique(nsl.buyers@));
                            assert forall|t: int| 0 <= t < nsl.buyers@.len() implies (
                            #[trigger] nsl.buyers@[t].unconfirmed) <= nsl.buyers@[t].amount by {
                                if t < osl.buyers@.len() && nsl.buyers@[t] == osl.buyers@[t] {
                                    assert(slot_inv(osl));
                                }
                            }
                        }
                    }
                }
            }
            assert(claim_effect(
                pre,
                *self,
                sale_id@,
                idx as int,
                buyer@,
                (BuyerStatus {
                    allocation_claimed: true,
                    refund_claimed: prior_status(osl.buyers@, buyer@).refund_claimed,
                    excess_refund_claimed: prior_status(osl.buyers@, buyer@).excess_refund_claimed,
                }),
            ));
        }
        Ok(TokenTransfer { token, amount: payout })
    }

    /// Refund a buyer's full reconciled contribution from an aborted sale,
    /// exactly once per (sale, slot, buyer).
    pub fn claim_refund(&mut self, sale_id: &[u8], token_index: u8, buyer: &[u8]) -> (r: Result<
        AssetTransfer,
        ContributorError,
    >)
        requires
            old(self).inv(),
        ensures
            final(self).inv(),
            final(self).consumed@ == old(self).consumed@,
            match r {
                Err(e) => {
                    &&& *final(self) == *old(self)
                    &&& claim_refund_err(*old(self), sale_id@, token_index as int, buyer@)
                        == Some(e)
                },
                Ok(t) => ({
                    let e0 = old(self).sale_at(sale_id@);
                    let s0 = e0.slots@[token_index as int];
                    let st0 = prior_status(s0.buyers@, buyer@);
                    &&& claim_refund_err(*old(self), sale_id@, token_index as int, buyer@) is None
                    &&& claim_effect(
                        *old(self),
                        *final(self),
                        sale_id@,
                        token_index as int,
                        buyer@,
                        (BuyerStatus {
                            allocation_claimed: st0.allocation_claimed,
                            refund_claimed: true,
                            excess_refund_claimed: st0.excess_refund_claimed,
                        }),
                    )
                    &&& t.asset.key() == s0.asset.key()
                    &&& t.amount as int == prior_amount(s0.buyers@, buyer@)
                }),
            },
    {
        let i = match self.find_sale(sale_id) {
            None => {
                return Err(ContributorError::UnknownSale);
            },
            Some(i) => i,
        };
        let e = &self.sales[i];
        match e.status {
            SaleStatus::Aborted => {},
            _ => {
                return Err(ContributorError::SaleNotAborted);
            },
        }
        let idx = token_index as usize;
        if idx >= e.slots.len() {
            return Err(ContributorError::InvalidAssetSlot);
        }
        proof {
            assert(sale_inv(self.sales@[i as int]));
            assert(slot_inv(self.sales@[i as int].slots@[idx as int]));
        }
        let sl_ref = &e.slots[idx];
        let k_opt = find_buyer(&sl_ref.buyers, buyer);
        let contributed: u128;
        let already: bool;
        match k_opt {
            Some(k) => {
                let b = &sl_ref.buyers[k];
                contributed = b.amount;
                already = b.status.refund_claimed;
            },
            None => {
                contributed = 0;
                already = false;
            },
        }
        if already {
            return Err(ContributorError::AlreadyClaimed);
        }
        let refunded_asset = copy_asset(&sl_ref.asset);
        let ghost pre = *self;
        let ghost oe = pre.sales@[i as int];
        let ghost osl = oe.slots@[idx as int];
        let mut entry = blank_sale();
        self.sales.set_and_swap(i, &mut entry);
        let mut sl = blank_slot();
        entry.slots.set_and_swap(idx, &mut sl);
        match k_opt {
            Some(k) => {
                let mut b = blank_buyer();
                sl.buyers.set_and_swap(k, &mut b);
                b.status = BuyerStatus {
                    allocation_claimed: b.status.allocation_claimed,
                    refund_claimed: true,
                    excess_refund_claimed: b.status.excess_refund_claimed,
                };
                let ghost nb = b;
                sl.buyers.set(k, b);
                proof {
                    assert(sl.buyers@ =~= osl.buyers@.update(k as int, nb));
                    lemma_buyers_update_frame(osl.buyers@, sl.buyers@, k as int, buyer@);
                    lemma_sum_amounts_update(osl.buyers@, k as int, nb);
                }
            },
            None => {
                let rec = BuyerRecord {
                    buyer: copy_bytes(buyer),
                    amount: 0,
                    unconfirmed: 0,
                    escrow_confirmed: false,
                    status: BuyerStatus {
                        allocation_claimed: false,
                        refund_claimed: true,
                        excess_refund_claimed: false,
                    },
                };
                let ghost grec = rec;
                proof {
                    lemma_buyers_push_frame(osl.buyers@, grec);
                    lemma_sum_amounts_push(osl.buyers@, grec);
                }
                sl.buyers.push(rec);
            },
        }
        let ghost nsl = sl;
        entry.slots.set(idx, sl);
        let ghost ne = entry;
        self.sales.set(i, entry);
        proof {
            assert(ne.slots@ =~= oe.slots@.update(idx as int, nsl));
            assert(self.sales@ =~= pre.sales@.update(i as int, ne));
            lemma_sale_update_frame(pre, *self, i as int, sale_id@);
            assert forall|ii: int| 0 <= ii < self.sales@.len() implies sale_inv(
                #[trigger] self.sales@[ii],
            ) by {
                if ii != i as int {
                    assert(self.sales@[ii] == pre.sales@[ii]);
                    assert(sale_inv(pre.sales@[ii]));
                } else {
                    assert(sale_inv(oe));
                    assert forall|j: int| 0 <= j < ne.slots@.len() implies slot_inv(
                        #[trigger] ne.slots@[j],
                    ) by {
                        if j != idx as int {
                            assert(ne.slots@[j] == oe.slots@[j]);
                            assert(slot_inv(oe.slots@[j]));
                        } else {
                            assert(buyers_unique(nsl.buyers@));
                            assert forall|t: int| 0 <= t < nsl.buyers@.len() implies (
                            #[trigger] nsl.buyers@[t].unconfirmed) <= nsl.buyers@[t].amount by {
                                if t < osl.buyers@.len() && nsl.buyers@[t] == osl.buyers@[t] {
                                    assert(slot_inv(osl));
                                }
                            }
                        }
                    }
                    assert(oe.status != SaleStatus::Sealed);
                    assert(forall|j2: int|
                        0 <= j2 < oe.slots@.len() ==> (#[trigger] oe.slots@[j2].allocation) == 0
                            && oe.slots@[j2].excess == 0);
                    assert forall|j: int|
                        ne.status != SaleStatus::Sealed && 0 <= j < ne.slots@.len() implies (
                    #[trigger] ne.slots@[j].allocation) == 0 && ne.slots@[j].excess == 0 by {
                        assert(oe.slots@.len() == ne.slots@.len());
                        assert(oe.slots@[j].allocation == 0);
                        assert(oe.slots@[j].excess == 0);
                        if j == idx as int {
                            assert(ne.slots@[j] == nsl);
                            assert(nsl.allocation == osl.allocation);
                            assert(nsl.excess == osl.excess);
                        } else {
                            assert(ne.slots@[j] == oe.slots@[j]);
                        }
                    }
                }
            }
            assert(claim_effect(
                pre,
                *self,
                sale_id@,
                idx as int,
                buyer@,
                (BuyerStatus {
                    allocation_claimed: prior_status(osl.buyers@, buyer@).allocation_claimed,
                    refund_claimed: true,
                    excess_refund_claimed: prior_status(osl.buyers@, buyer@).excess_refund_claimed,
                }),
            ));
        }
        Ok(AssetTransfer { asset: refunded_asset, amount: contributed })
    }

    /// Refund a buyer's proportional share of a sealed, over-subscribed
    /// slot's excess contribution: `excess * contribution / total`, rounded
    /// down, exactly once per (sale, slot, buyer).
    pub fn claim_excess_refund(&mut self, sale_id: &[u8], token_index: u8, buyer: &[u8]) -> (r:
        Result<AssetTransfer, ContributorError>)
        requires
            old(self).inv(),
        ensures
            final(self).inv(),
            final(self).consumed@ == old(self).consumed@,
            match r {
                Err(e) => {
                    &&& *final(self) == *old(self)
                    &&& claim_excess_refund_err(*old(self), sale_id@, token_index as int, buyer@)
                        == Some(e)
                },
                Ok(t) => ({
                    let e0 = old(self).sale_at(sale_id@);
                    let s0 = e0.slots@[token_index as int];
                    let st0 = prior_status(s0.buyers@, buyer@);
                    &&& claim_excess_refund_err(*old(self), sale_id@, token_index as int, buyer@)
                        is None
                    &&& claim_effect(
                        *old(self),
                        *final(self),
                        sale_id@,
                        token_index as int,
                        buyer@,
                        (BuyerStatus {
                            allocation_claimed: st0.allocation_claimed,
                            refund_claimed: st0.refund_claimed,
                            excess_refund_claimed: true,
                        }),
                    )
                    &&& t.asset.key() == s0.asset.key()
                    &&& t.amount as int == share(
                        s0.excess,
                        prior_amount(s0.buyers@, buyer@),
                        s0.total,
                    )
                }),
            },
    {
        let i = match self.find_sale(sale_id) {
            None => {
                return Err(ContributorError::UnknownSale);
            },
            Some(i) => i,
        };
        let e = &self.sales[i];
        match e.status {
            SaleStatus::Sealed => {},
            _ => {
                return Err(ContributorError::SaleNotSealed);
            },
        }
        let idx = token_index as usize;
        if idx >= e.slots.len() {
            return Err(ContributorError::InvalidAssetSlot);
        }
        proof {
            assert(sale_inv(self.sales@[i as int]));
            assert(slot_inv(self.sales@[i as int].slots@[idx as int]));
        }
        let sl_ref = &e.slots[idx];
        let k_opt = find_buyer(&sl_ref.buyers, buyer);
        let contributed: u128;
        let already: bool;
        match k_opt {
            Some(k) => {
                let b = &sl_ref.buyers[k];
                contributed = b.amount;
                already = b.status.excess_refund_claimed;
            },
            None => {
                contributed = 0;
                already = false;
            },
        }
        if already {
            return Err(ContributorError::AlreadyClaimed);
        }
        let total = sl_ref.total;
        let excess = sl_ref.excess;
        let payout: u128 = if total == 0 {
            0
        } else {
            match excess.checked_mul(contributed) {
                None => {
                    return Err(ContributorError::ArithmeticOverflow);
                },
                Some(p) => p / total,
            }
        };
        let refunded_asset = copy_asset(&sl_ref.asset);
        let ghost pre = *self;
        let ghost oe = pre.sales@[i as int];
        let ghost osl = oe.slots@[idx as int];
        let mut entry = blank_sale();
        self.sales.set_and_swap(i, &mut entry);
        let mut sl = blank_slot();
        entry.slots.set_and_swap(idx, &mut sl);
        match k_opt {
            Some(k) => {
                let mut b = blank_buyer();
                sl.buyers.set_and_swap(k, &mut b);
                b.status = BuyerStatus {
                    allocation_claimed: b.status.allocation_claimed,
                    refund_claimed: b.status.refund_claimed,
                    excess_refund_claimed: true,
                };
                let ghost nb = b;
                sl.buyers.set(k, b);
                proof {
                    assert(sl.buyers@ =~= osl.buyers@.update(k as int, nb));
                    lemma_buyers_update_frame(osl.buyers@, sl.buyers@, k as int, buyer@);
                    lemma_sum_amounts_update(osl.buyers@, k as int, nb);
                }
            },
            None => {
                let rec = BuyerRecord {
                    buyer: copy_bytes(buyer),
                    amount: 0,
                    unconfirmed: 0,
                    escrow_confirmed: false,
                    status: BuyerStatus {
                        allocation_claimed: false,
                        refund_claimed: false,
                        excess_refund_claimed: true,
                    },
                };
                let ghost grec = rec;
                proof {
                    lemma_buyers_push_frame(osl.buyers@, grec);
                    lemma_sum_amounts_push(osl.buyers@, grec);
                }
                sl.buyers.push(rec);
            },
        }
        let ghost nsl = sl;
        entry.slots.set(idx, sl);
        let ghost ne = entry;
        self.sales.set(i, entry);
        proof {
            assert(ne.slots@ =~= oe.slots@.update(idx as int, nsl));
            assert(self.sales@ =~= pre.sales@.update(i as int, ne));
            lemma_sale_update_frame(pre, *self, i as int, sale_id@);
            assert forall|ii: int| 0 <= ii < self.sales@.len() implies sale_inv(
                #[trigger] self.sales@[ii],
            ) by {
                if ii != i as int {
                    assert(self.sales@[ii] == pre.sales@[ii]);
                    assert(sale_inv(pre.sales@[ii]));
                } else {
                    assert(sale_inv(oe));
                    assert forall|j: int| 0 <= j < ne.slots@.len() implies slot_inv(
                        #[trigger] ne.slots@[j],
                    ) by {
                        if j != idx as int {
                            assert(ne.slots@[j] == oe.slots@[j]);
                            assert(slot_inv(oe.slots@[j]));
                        } else {
                            assert(buyers_unique(nsl.buyers@));
                            assert forall|t: int| 0 <= t < nsl.buyers@.len() implies (
                            #[trigger] nsl.buyers@[t].unconfirmed) <= nsl.buyers@[t].amount by {
                                if t < osl.buyers@.len() && nsl.buyers@[t] == osl.buyers@[t] {
                                    assert(slot_inv(osl));
                                }
                            }
                        }
                    }
                }
            }
            assert(claim_effect(
                pre,
                *self,
                sale_id@,
                idx as int,
                buyer@,
                (BuyerStatus {
                    allocation_claimed: prior_status(osl.buyers@, buyer@).allocation_claimed,
                    refund_claimed: prior_status(osl.buyers@, buyer@).refund_claimed,
                    excess_refund_claimed: true,
                }),
            ));
        }
        Ok(AssetTransfer { asset: refunded_asset, amount: payout })
    }
}

// ---------------------------------------------------------------------------
// Laws of the claim guards
// ---------------------------------------------------------------------------

/// An allocation claim can succeed at most once per (sale, slot, buyer):
/// after one successful claim, any further allocation claim for the same
/// triple fails with `AlreadyClaimed`.
pub proof fn lemma_claim_allocation_once(
    pre: Contributor,
    post: Contributor,
    sid: Seq<u8>,
    idx: int,
    buyer: Seq<u8>,
    st1: BuyerStatus,
)
    requires
        claim_allocation_err(pre, sid, idx, buyer) is None,
        claim_effect(pre, post, sid, idx, buyer, st1),
        st1.allocation_claimed,
    ensures
        claim_allocation_err(post, sid, idx, buyer) == Some(ContributorError::AlreadyClaimed),
{
    assert(post.sale_at(sid).status == SaleStatus::Sealed);
    assert(prior_status(post.sale_at(sid).slots@[idx].buyers@, buyer) == st1);
}

/// A refund claim can succeed at most once per (sale, slot, buyer): after
/// one successful claim, any further refund claim for the same triple fails
/// with `AlreadyClaimed`.
pub proof fn lemma_claim_refund_once(
    pre: Contributor,
    post: Contributor,
    sid: Seq<u8>,
    idx: int,
    buyer: Seq<u8>,
    st1: BuyerStatus,
)
    requires
        claim_refund_err(pre, sid, idx, buyer) is None,
        claim_effect(pre, post, sid, idx, buyer, st1),
        st1.refund_claimed,
    ensures
        claim_refund_err(post, sid, idx, buyer) == Some(ContributorError::AlreadyClaimed),
{
    assert(post.sale_at(sid).status == SaleStatus::Aborted);
    assert(prior_status(post.sale_at(sid).slots@[idx].buyers@, buyer) == st1);
}

/// An excess-refund claim can succeed at most once per (sale, slot, buyer):
/// after one successful claim, any further excess-refund claim for the same
/// triple fails with `AlreadyClaimed`.
pub proof fn lemma_claim_excess_refund_once(
    pre: Contributor,
    post: Contributor,
    sid: Seq<u8>,
    idx: int,
    buyer: Seq<u8>,
    st1: BuyerStatus,
)
    requires
        claim_excess_refund_err(pre, sid, idx, buyer) is None,
        claim_effect(pre, post, sid, idx, buyer, st1),
        st1.excess_refund_claimed,
    ensures
        claim_excess_refund_err(post, sid, idx, buyer) == Some(ContributorError::AlreadyClaimed),
{
    assert(post.sale_at(sid).status == SaleStatus::Sealed);
    assert(prior_status(post.sale_at(sid).slots@[idx].buyers@, buyer) == st1);
}

// ---------------------------------------------------------------------------
// The rounding-down invariant: allocations can never be over-claimed
// ---------------------------------------------------------------------------

/// Sum of a sequence of contribution amounts.
pub open spec fn sum_contributions(s: Seq<u128>) -> int
    decreases s.len(),
{
    if s.len() == 0 {
        0
    } else {
        sum_contributions(s.drop_last()) + s.last()
    }
}

/// Sum of the rounded-down allocation shares of a sequence of contributions.
pub open spec fn sum_shares(alloc: u128, s: Seq<u128>, total: u128) -> int
    decreases s.len(),
{
    if s.len() == 0 {
        0
    } else {
        sum_shares(alloc, s.drop_last(), total) + share(alloc, s.last() as int, total)
    }
}

/// Rounding down is superadditive: splitting a numerator across two
/// divisions never yields more than dividing the sum.
proof fn lemma_div_superadd(x: int, y: int, d: int)
    requires
        x >= 0,
        y >= 0,
        d > 0,
    ensures
        x / d + y / d <= (x + y) / d,
{
    let q = x / d + y / d;
    lemma_fundamental_div_mod(x, d);
    lemma_fundamental_div_mod(y, d);
    lemma_mod_division_less_than_divisor(x, d);
    lemma_mod_division_less_than_divisor(y, d);
    assert(d * q == d * (x / d) + d * (y / d)) by {
        lemma_mul_is_distributive_add(d, x / d, y / d);
    }
    assert(d * q <= x + y);
    lemma_div_is_ordered(d * q, x + y, d);
    lemma_div_multiples_vanish(q, d);
}

/// A sequence's summed shares never exceed the share of its summed
/// contributions.
proof fn lemma_sum_shares_le(alloc: u128, s: Seq<u128>, total: u128)
    requires
        total > 0,
    ensures
        sum_contributions(s) >= 0,
        sum_shares(alloc, s, total) <= (alloc as int * sum_contributions(s)) / (total as int),
    decreases s.len(),
{
    let a = alloc as int;
    let d = total as int;
    if s.len() == 0 {
        assert(a * 0 == 0);
        assert(0int / d == 0) by {
            lemma_div_multiples_vanish(0, d);
            assert(d * 0 == 0);
        }
    } else {
        let dl = s.drop_last();
        let x: int = s.last() as int;
        let sdl = sum_contributions(dl);
        lemma_sum_shares_le(alloc, dl, total);
        lemma_mul_nonnegative(a, sdl);
        lemma_mul_nonnegative(a, x);
        lemma_div_superadd(a * sdl, a * x, d);
        assert(a * sdl + a * x == a * (sdl + x)) by {
            lemma_mul_is_distributive_add(a, sdl, x);
        }
        lemma_div_is_ordered(a * sdl, a * sdl, d);
        assert(share(alloc, x, total) == (a * x) / d);
        assert(sum_shares(alloc, s, total) <= (a * sdl) / d + (a * x) / d);
        assert(sum_shares(alloc, s, total) <= (a * (sdl + x)) / d);
    }
}

/// Shares of a zero-total slot are all zero.
proof fn lemma_sum_shares_zero_total(alloc: u128, s: Seq<u128>)
    ensures
        sum_shares(alloc, s, 0) == 0,
    decreases s.len(),
{
    if s.len() > 0 {
        lemma_sum_shares_zero_total(alloc, s.drop_last());
    }
}

/// The rounding-down invariant of the allocation engine: for any set of
/// buyer contributions whose sum does not exceed the slot's recorded total,
/// the allocation shares paid out by `claim_allocation` — each equal to
/// `share(alloc, contribution, total)` — sum to at most the slot's total
/// allocation.  No sequence of claims can over-allocate; the remainder of
/// every rounded-down division stays with the sale.
pub proof fn lemma_no_over_allocation(alloc: u128, amounts: Seq<u128>, total: u128)
    requires
        sum_contributions(amounts) <= total as int,
    ensures
        sum_shares(alloc, amounts, total) <= alloc as int,
{
    if total == 0 {
        lemma_sum_shares_zero_total(alloc, amounts);
    } else {
        lemma_sum_shares_le(alloc, amounts, total);
        let a = alloc as int;
        let d = total as int;
        let s = sum_contributions(amounts);
        assert(a * s <= a * d) by {
            lemma_mul_inequality(s, d, a);
            lemma_mul_is_commutative(s, a);
            lemma_mul_is_commutative(d, a);
        }
        lemma_div_is_ordered(a * s, a * d, d);
        assert((a * d) / d == a) by {
            lemma_div_multiples_vanish(a, d);
            lemma_mul_is_commutative(a, d);
        }
    }
}

} // verus!
