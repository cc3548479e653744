use vstd::prelude::*;

use crate::errors::ContributorError;
use crate::state::{
    blank_buyer, blank_sale, blank_slot, buyer_at, buyers_unique, find_buyer, has_buyer,
    lemma_buyers_push_frame, lemma_buyers_update_frame, lemma_sale_update_frame,
    lemma_sum_amounts_bounds, lemma_sum_amounts_push, lemma_sum_amounts_update, sale_inv,
    slot_inv, sum_amounts, BuyerRecord, Contributor,
};
use crate::types::{copy_asset, copy_bytes, AssetTransfer, BuyerStatus, SaleStatus};
use vstd::pervasive::VecAdditionalExecFns;

verus! {

/// The error, if any, that contributing `amount` to slot `idx` of sale
/// `sid` at time `now` must return on `pre`.  The checks run in this order:
/// the sale exists and is active, the time lies in the window, the slot is
/// one of the sale's, the amount is positive, and the slot's total has room.
pub open spec fn contribute_err(
    pre: Contributor,
    now: u64,
    sid: Seq<u8>,
    idx: int,
    amount: u128,
) -> Option<ContributorError> {
    if !pre.has_sale(sid) || pre.sale_at(sid).status != SaleStatus::Active {
        Some(ContributorError::SaleNotActive)
    } else if now < pre.sale_at(sid).times.start || now > pre.sale_at(sid).times.end {
        Some(ContributorError::OutsideContributionWindow)
    } else if idx < 0 || idx >= pre.sale_at(sid).slots@.len() {
        Some(ContributorError::InvalidAssetSlot)
    } else if amount == 0 {
        Some(ContributorError::ZeroAmount)
    } else {
        let sl = pre.sale_at(sid).slots@[idx];
        match sl.cap {
            Some(c) => if sl.total as int + amount as int > c as int {
                Some(ContributorError::ContributionExceedsCap)
            } else {
                None
            },
            None => if sl.total as int + amount as int > u128::MAX as int {
                Some(ContributorError::ArithmeticOverflow)
            } else {
                None
            },
        }
    }
}

/// A buyer's claim flags before their first contribution or claim.
pub open spec fn unset_status() -> BuyerStatus {
    BuyerStatus { allocation_claimed: false, refund_claimed: false, excess_refund_claimed: false }
}

/// Effect of a successful contribution: the buyer's record and the slot's
/// total both grow by `amount`, the buyer's new batch counts as unconfirmed,
/// and nothing else in the whole state moves.
pub open spec fn contribute_effect(
    pre: Contributor,
    post: Contributor,
    sid: Seq<u8>,
    idx: int,
    buyer: Seq<u8>,
    amount: u128,
) -> bool {
    &&& post.config == pre.config
    &&& pre.has_sale(sid)
    &&& post.has_sale(sid)
    &&& forall|s: Seq<u8>| post.has_sale(s) == pre.has_sale(s)
    &&& forall|s: Seq<u8>| pre.has_sale(s) && s != sid ==> post.sale_at(s) == pre.sale_at(s)
    &&& ({
        let e0 = pre.sale_at(sid);
        let e1 = post.sale_at(sid);
        &&& e1.id == e0.id
        &&& e1.token == e0.token
        &&& e1.times == e0.times
        &&& e1.status == e0.status
        &&& e1.slots@.len() == e0.slots@.len()
        &&& forall|j: int|
            0 <= j < e0.slots@.len() && j != idx ==> (#[trigger] e1.slots@[j]) == e0.slots@[j]
        &&& ({
            let s0 = e0.slots@[idx];
            let s1 = e1.slots@[idx];
            let prior_amount: int = if has_buyer(s0.buyers@, buyer) {
                buyer_at(s0.buyers@, buyer).amount as int
            } else {
                0
            };
            let prior_unconfirmed: int = if has_buyer(s0.buyers@, buyer) {
                buyer_at(s0.buyers@, buyer).unconfirmed as int
            } else {
                0
            };
            let prior_status = if has_buyer(s0.buyers@, buyer) {
                buyer_at(s0.buyers@, buyer).status
            } else {
                unset_status()
            };
            &&& s1.asset == s0.asset
            &&& s1.decimals == s0.decimals
            &&& s1.cap == s0.cap
            &&& s1.allocation == s0.allocation
            &&& s1.excess == s0.excess
            &&& s1.total as int == s0.total as int + amount as int
            &&& has_buyer(s1.buyers@, buyer)
            &&& buyer_at(s1.buyers@, buyer).buyer@ == buyer
            &&& buyer_at(s1.buyers@, buyer).amount as int == prior_amount + amount as int
            &&& buyer_at(s1.buyers@, buyer).unconfirmed as int == prior_unconfirmed + amount as int
            &&& buyer_at(s1.buyers@, buyer).escrow_confirmed == false
            &&& buyer_at(s1.buyers@, buyer).status == prior_status
            &&& forall|x: Seq<u8>|
                x != buyer ==> has_buyer(s1.buyers@, x) == has_buyer(s0.buyers@, x)
            &&& forall|x: Seq<u8>|
                has_buyer(s0.buyers@, x) && x != buyer ==> buyer_at(s1.buyers@, x) == buyer_at(
                    s0.buyers@,
                    x,
                )
        })
    })
}

/// The error, if any, that reconciling the pending contribution of `buyer`
/// in slot `idx` of sale `sid` must return on `pre`.  A buyer with no
/// unconfirmed batch — never contributed, or already reconciled — yields
/// `ContributionAlreadyReconciled`.
pub open spec fn reconcile_err(pre: Contributor, sid: Seq<u8>, idx: int, buyer: Seq<u8>) -> Option<
    ContributorError,
> {
    if !pre.has_sale(sid) {
        Some(ContributorError::UnknownSale)
    } else if pre.sale_at(sid).status != SaleStatus::Active {
        Some(ContributorError::SaleNotActive)
    } else if idx < 0 || idx >= pre.sale_at(sid).slots@.len() {
        Some(ContributorError::InvalidAssetSlot)
    } else if !has_buyer(pre.sale_at(sid).slots@[idx].buyers@, buyer) || buyer_at(
        pre.sale_at(sid).slots@[idx].buyers@,
        buyer,
    ).escrow_confirmed {
        Some(ContributorError::ContributionAlreadyReconciled)
    } else {
        None
    }
}

/// How much of the unconfirmed batch failed to arrive: the part of the
/// recorded batch that exceeds the amount actually escrowed.
pub open spec fn reconcile_shortfall(b0: BuyerRecord, actual: u128) -> int {
    if (actual as int) < (b0.unconfirmed as int) {
        b0.unconfirmed as int - actual as int
    } else {
        0
    }
}

/// Effect of a successful reconciliation: the buyer's record and the slot's
/// total both shrink by the shortfall, the batch is marked confirmed, and
/// nothing else in the whole state moves.
pub open spec fn reconcile_effect(
    pre: Contributor,
    post: Contributor,
    sid: Seq<u8>,
    idx: int,
    buyer: Seq<u8>,
    actual: u128,
) -> bool {
    &&& post.config == pre.config
    &&& pre.has_sale(sid)
    &&& post.has_sale(sid)
    &&& forall|s: Seq<u8>| post.has_sale(s) == pre.has_sale(s)
    &&& forall|s: Seq<u8>| pre.has_sale(s) && s != sid ==> post.sale_at(s) == pre.sale_at(s)
    &&& ({
        let e0 = pre.sale_at(sid);
        let e1 = post.sale_at(sid);
        &&& e1.id == e0.id
        &&& e1.token == e0.token
        &&& e1.times == e0.times
        &&& e1.status == e0.status
        &&& e1.slots@.len() == e0.slots@.len()
        &&& forall|j: int|
            0 <= j < e0.slots@.len() && j != idx ==> (#[trigger] e1.slots@[j]) == e0.slots@[j]
        &&& ({
            let s0 = e0.slots@[idx];
            let s1 = e1.slots@[idx];
            let b0 = buyer_at(s0.buyers@, buyer);
            let short = reconcile_shortfall(b0, actual);
            &&& s1.asset == s0.asset
            &&& s1.decimals == s0.decimals
            &&& s1.cap == s0.cap
            &&& s1.allocation == s0.allocation
            &&& s1.excess == s0.excess
            &&& s1.total as int == s0.total as int - short
            &&& has_buyer(s1.buyers@, buyer)
            &&& buyer_at(s1.buyers@, buyer).buyer@ == buyer
            &&& buyer_at(s1.buyers@, buyer).amount as int == b0.amount as int - short
            &&& buyer_at(s1.buyers@, buyer).unconfirmed == 0
            &&& buyer_at(s1.buyers@, buyer).escrow_confirmed == true
            &&& buyer_at(s1.buyers@, buyer).status == b0.status
            &&& forall|x: Seq<u8>|
                x != buyer ==> has_buyer(s1.buyers@, x) == has_buyer(s0.buyers@, x)
            &&& forall|x: Seq<u8>|
                has_buyer(s0.buyers@, x) && x != buyer ==> buyer_at(s1.buyers@, x) == buyer_at(
                    s0.buyers@,
                    x,
                )
        })
    })
}

/// A contribution outside the sale's window always fails with
/// `OutsideContributionWindow`, even while the sale is otherwise active.
pub proof fn lemma_outside_window_rejected(
    pre: Contributor,
    now: u64,
    sid: Seq<u8>,
    idx: int,
    amount: u128,
)
    requires
        pre.has_sale(sid),
        pre.sale_at(sid).status == SaleStatus::Active,
        now < pre.sale_at(sid).times.start || now > pre.sale_at(sid).times.end,
    ensures
        contribute_err(pre, now, sid, idx, amount) == Some(
            ContributorError::OutsideContributionWindow,
        ),
{
}

impl Contributor {
    /// Record a buyer's contribution to one asset slot of an active sale and
    /// emit the instruction that pulls the asset into escrow.
    ///
    /// The recorded amount is provisional until the escrow collaborator
    /// confirms what actually arrived (`escrow_user_contribution_hook`).
    /// A contribution that would push the slot's total past its raise cap is
    /// rejected whole, never clipped.
    pub fn contribute(
        &mut self,
        now: u64,
        sale_id: &[u8],
        token_index: u8,
        buyer: &[u8],
        amount: u128,
    ) -> (r: Result<AssetTransfer, ContributorError>)
        requires
            old(self).inv(),
        ensures
            final(self).inv(),
            final(self).consumed@ == old(self).consumed@,
            match r {
                Err(e) => {
                    &&& *final(self) == *old(self)
                    &&& contribute_err(*old(self), now, sale_id@, token_index as int, amount)
                        == Some(e)
                },
                Ok(ins) => {
                    &&& contribute_err(*old(self), now, sale_id@, token_index as int, amount)
                        is None
                    &&& contribute_effect(
                        *old(self),
                        *final(self),
                        sale_id@,
                        token_index as int,
                        buyer@,
                        amount,
                    )
                    &&& ins.asset.key() == old(self).sale_at(
                        sale_id@,
                    ).slots@[token_index as int].asset.key()
                    &&& ins.amount == amount
                },
            },
    {
        let i = match self.find_sale(sale_id) {
            None => {
                return Err(ContributorError::SaleNotActive);
            },
            Some(i) => i,
        };
        let e = &self.sales[i];
        match e.status {
            SaleStatus::Active => {},
            _ => {
                return Err(ContributorError::SaleNotActive);
            },
        }
        if now < e.times.start || now > e.times.end {
            return Err(ContributorError::OutsideContributionWindow);
        }
        let idx = token_index as usize;
        if idx >= e.slots.len() {
            return Err(ContributorError::InvalidAssetSlot);
        }
        if amount == 0 {
            return Err(ContributorError::ZeroAmount);
        }
        proof {
            assert(sale_inv(self.sales@[i as int]));
            assert(slot_inv(self.sales@[i as int].slots@[idx as int]));
        }
        let sl0 = &e.slots[idx];
        match sl0.cap {
            Some(c) => {
                if amount > c - sl0.total {
                    return Err(ContributorError::ContributionExceedsCap);
                }
            },
            None => {
                if amount > u128::MAX - sl0.total {
                    return Err(ContributorError::ArithmeticOverflow);
                }
            },
        }
        let ghost pre = *self;
        let ghost oe = pre.sales@[i as int];
        let ghost osl = oe.slots@[idx as int];
        let mut entry = blank_sale();
        self.sales.set_and_swap(i, &mut entry);
        let mut sl = blank_slot();
        entry.slots.set_and_swap(idx, &mut sl);
        let pulled_asset = copy_asset(&sl.asset);
        proof {
            lemma_sum_amounts_bounds(osl.buyers@);
        }
        match find_buyer(&sl.buyers, buyer) {
            Some(k) => {
                let mut b = blank_buyer();
                sl.buyers.set_and_swap(k, &mut b);
                proof {
                    assert(b == osl.buyers@[k as int]);
                    assert(b.amount <= osl.total);
                    assert(b.unconfirmed <= b.amount);
                }
                b.amount = b.amount + amount;
                b.unconfirmed = b.unconfirmed + amount;
                b.escrow_confirmed = false;
                let ghost nb = b;
                sl.buyers.set(k, b);
                proof {
                    assert(sl.buyers@ =~= osl.buyers@.update(k as int, nb));
                    lemma_buyers_update_frame(osl.buyers@, sl.buyers@, k as int, buyer@);
                    lemma_sum_amounts_update(osl.buyers@, k as int, nb);
                }
            },
            None => {
                let rec = BuyerRecord {
                    buyer: copy_bytes(buyer),
                    amount,
                    unconfirmed: amount,
                    escrow_confirmed: false,
                    status: BuyerStatus::unset(),
                };
                let ghost grec = rec;
                proof {
                    lemma_buyers_push_frame(osl.buyers@, grec);
                    lemma_sum_amounts_push(osl.buyers@, grec);
                }
                sl.buyers.push(rec);
            },
        }
        sl.total = sl.total + amount;
        let ghost nsl = sl;
        entry.slots.set(idx, sl);
        let ghost ne = entry;
        self.sales.set(i, entry);
        proof {
            assert(ne.slots@ =~= oe.slots@.update(idx as int, nsl));
            assert(self.sales@ =~= pre.sales@.update(i as int, ne));
            lemma_sale_update_frame(pre, *self, i as int, sale_id@);
            assert(sum_amounts(nsl.buyers@) == sum_amounts(osl.buyers@) + amount);
            assert forall|ii: int| 0 <= ii < self.sales@.len() implies sale_inv(
                #[trigger] self.sales@[ii],
            ) by {
                if ii != i as int {
                    assert(self.sales@[ii] == pre.sales@[ii]);
                    assert(sale_inv(pre.sales@[ii]));
                } else {
                    assert(sale_inv(oe));
                    assert forall|j: int| 0 <= j < ne.slots@.len() implies slot_inv(
                        #[trigger] ne.slots@[j],
                    ) by {
                        if j != idx as int {
                            assert(ne.slots@[j] == oe.slots@[j]);
                            assert(slot_inv(oe.slots@[j]));
                        } else {
                            assert(buyers_unique(nsl.buyers@));
                            assert forall|t: int| 0 <= t < nsl.buyers@.len() implies (
                            #[trigger] nsl.buyers@[t].unconfirmed) <= nsl.buyers@[t].amount by {
                                if t < osl.buyers@.len() && nsl.buyers@[t] == osl.buyers@[t] {
                                    assert(slot_inv(osl));
                                }
                            }
                        }
                    }
                    assert(oe.status != SaleStatus::Sealed);
                    assert(forall|j2: int|
                        0 <= j2 < oe.slots@.len() ==> (#[trigger] oe.slots@[j2].allocation) == 0
                            && oe.slots@[j2].excess == 0);
                    assert forall|j: int|
                        ne.status != SaleStatus::Sealed && 0 <= j < ne.slots@.len() implies (
                    #[trigger] ne.slots@[j].allocation) == 0 && ne.slots@[j].excess == 0 by {
                        assert(oe.slots@.len() == ne.slots@.len());
                        assert(0 <= j < oe.slots@.len());
                        assert(oe.slots@[j].allocation == 0);
                        assert(oe.slots@[j].excess == 0);
                        if j == idx as int {
                            assert(ne.slots@[j] == nsl);
                            assert(nsl.allocation == osl.allocation);
                            assert(nsl.excess == osl.excess);
                        } else {
                            assert(ne.slots@[j] == oe.slots@[j]);
                        }
                    }
                }
            }
            assert(contribute_effect(pre, *self, sale_id@, idx as int, buyer@, amount));
        }
        Ok(AssetTransfer { asset: pulled_asset, amount })
    }

    /// Settle a buyer's pending contribution batch against the amount the
    /// escrow collaborator reports as actually received.
    ///
    /// A fee-on-transfer asset may deliver less than was recorded; the
    /// difference is taken back out of the buyer's record and the slot's
    /// total, and the batch is marked confirmed.  A second settlement of the
    /// same batch fails with `ContributionAlreadyReconciled`.
    pub fn escrow_user_contribution_hook(
        &mut self,
        sale_id: &[u8],
        token_index: u8,
        buyer: &[u8],
        actual_amount: u128,
    ) -> (r: Result<(), ContributorError>)
        requires
            old(self).inv(),
        ensures
            final(self).inv(),
            final(self).consumed@ == old(self).consumed@,
            match r {
                Err(e) => {
                    &&& *final(self) == *old(self)
                    &&& reconcile_err(*old(self), sale_id@, token_index as int, buyer@) == Some(e)
                },
                Ok(_) => {
                    &&& reconcile_err(*old(self), sale_id@, token_index as int, buyer@) is None
                    &&& reconcile_effect(
                        *old(self),
                        *final(self),
                        sale_id@,
                        token_index as int,
                        buyer@,
                        actual_amount,
                    )
                },
            },
    {
        let i = match self.find_sale(sale_id) {
            None => {
                return Err(ContributorError::UnknownSale);
            },
            Some(i) => i,
        };
        let e = &self.sales[i];
        match e.status {
            SaleStatus::Active => {},
            _ => {
                return Err(ContributorError::SaleNotActive);
            },
        }
        let idx = token_index as usize;
        if idx >= e.slots.len() {
            return Err(ContributorError::InvalidAssetSlot);
        }
        proof {
            assert(sale_inv(self.sales@[i as int]));
            assert(slot_inv(self.sales@[i as int].slots@[idx as int]));
        }
        let k = match find_buyer(&e.slots[idx].buyers, buyer) {
            None => {
                return Err(ContributorError::ContributionAlreadyReconciled);
            },
            Some(k) => k,
        };
        let already = e.slots[idx].buyers[k].escrow_confirmed;
        if already {
            return Err(ContributorError::ContributionAlreadyReconciled);
        }
        let ghost pre = *self;
        let ghost oe = pre.sales@[i as int];
        let ghost osl = oe.slots@[idx as int];
        let mut entry = blank_sale();
        self.sales.set_and_swap(i, &mut entry);
        let mut sl = blank_slot();
        entry.slots.set_and_swap(idx, &mut sl);
        proof {
            lemma_sum_amounts_bounds(osl.buyers@);
        }
        let mut b = blank_buyer();
        sl.buyers.set_and_swap(k, &mut b);
        proof {
            assert(b == osl.buyers@[k as int]);
            assert(b.amount <= osl.total);
            assert(b.unconfirmed <= b.amount);
        }
        let short = if actual_amount < b.unconfirmed {
            b.unconfirmed - actual_amount
        } else {
            0
        };
        b.amount = b.amount - short;
        b.unconfirmed = 0;
        b.escrow_confirmed = true;
        let ghost nb = b;
        sl.buyers.set(k, b);
        sl.total = sl.total - short;
        proof {
            assert(sl.buyers@ =~= osl.buyers@.update(k as int, nb));
            lemma_buyers_update_frame(osl.buyers@, sl.buyers@, k as int, buyer@);
            lemma_sum_amounts_update(osl.buyers@, k as int, nb);
        }
        let ghost nsl = sl;
        entry.slots.set(idx, sl);
        let ghost ne = entry;
        self.sales.set(i, entry);
        proof {
            assert(ne.slots@ =~= oe.slots@.update(idx as int, nsl));
            assert(self.sales@ =~= pre.sales@.update(i as int, ne));
            lemma_sale_update_frame(pre, *self, i as int, sale_id@);
            assert forall|ii: int| 0 <= ii < self.sales@.len() implies sale_inv(
                #[trigger] self.sales@[ii],
            ) by {
                if ii != i as int {
                    assert(self.sales@[ii] == pre.sales@[ii]);
                    assert(sale_inv(pre.sales@[ii]));
                } else {
                    assert(sale_inv(oe));
                    assert forall|j: int| 0 <= j < ne.slots@.len() implies slot_inv(
                        #[trigger] ne.slots@[j],
                    ) by {
                        if j != idx as int {
                            assert(ne.slots@[j] == oe.slots@[j]);
                            assert(slot_inv(oe.slots@[j]));
                        } else {
                            assert(buyers_unique(nsl.buyers@));
                            assert forall|t: int| 0 <= t < nsl.buyers@.len() implies (
                            #[trigger] nsl.buyers@[t].unconfirmed) <= nsl.buyers@[t].amount by {
                                if t < osl.buyers@.len() && nsl.buyers@[t] == osl.buyers@[t] {
                                    assert(slot_inv(osl));
                                }
                            }
                        }
                    }
                    assert(oe.status != SaleStatus::Sealed);
                    assert(forall|j2: int|
                        0 <= j2 < oe.slots@.len() ==> (#[trigger] oe.slots@[j2].allocation) == 0
                            && oe.slots@[j2].excess == 0);
                    assert forall|j: int|
                        ne.status != SaleStatus::Sealed && 0 <= j < ne.slots@.len() implies (
                    #[trigger] ne.slots@[j].allocation) == 0 && ne.slots@[j].excess == 0 by {
                        assert(oe.slots@.len() == ne.slots@.len());
                        assert(0 <= j < oe.slots@.len());
                        assert(oe.slots@[j].allocation == 0);
                        assert(oe.slots@[j].excess == 0);
                        if j == idx as int {
                            assert(ne.slots@[j] == nsl);
                            assert(nsl.allocation == osl.allocation);
                            assert(nsl.excess == osl.excess);
                        } else {
                            assert(ne.slots@[j] == oe.slots@[j]);
                        }
                    }
                }
            }
            assert(reconcile_effect(pre, *self, sale_id@, idx as int, buyer@, actual_amount));
        }
        Ok(())
    }
}

} // verus!
