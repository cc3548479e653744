use vstd::prelude::*;

use crate::errors::ContributorError;
use crate::state::{
    blank_sale, blank_slot, sale_inv, slot_inv, Contributor, SaleEntry, SlotState,
    lemma_sale_push_frame, lemma_sale_update_frame, lemma_same_sales_same_accessors,
};
use crate::types::{copy_asset, AssetInfo, SaleStatus, SaleTimes};
use vstd::pervasive::VecAdditionalExecFns;

verus! {

// ---------------------------------------------------------------------------
// Verified cross-chain actions
// ---------------------------------------------------------------------------

/// One accepted asset slot as a sale-origination payload states it.
pub struct AcceptedAsset {
    pub asset: AssetInfo,
    pub decimals: u8,
    /// Raise cap for the slot, if the conductor set one.
    pub cap: Option<u128>,
}

/// Payload of a sale-origination message.
pub struct SaleInit {
    pub sale_id: Vec<u8>,
    /// Identity of the token being sold.
    pub token: Vec<u8>,
    /// The conductor chain the payload claims to speak for.
    pub conductor_chain: u16,
    pub times: SaleTimes,
    pub accepted: Vec<AcceptedAsset>,
}

/// Sealed terms of one slot: allocation of the sold token against the
/// slot's contributions, and the excess contribution to be refunded.
#[derive(Clone, Copy, Debug, PartialEq, Eq, Structural)]
pub struct SlotSealed {
    pub allocation: u128,
    pub excess: u128,
}

/// Payload of a sale-sealing message: one sealed term per accepted slot.
pub struct SaleSealed {
    pub sale_id: Vec<u8>,
    pub allocations: Vec<SlotSealed>,
}

/// Payload of a sale-aborting message.
pub struct SaleAborted {
    pub sale_id: Vec<u8>,
}

/// The closed set of actions a verified cross-chain message can carry.
pub enum VaaBody {
    Init(SaleInit),
    Sealed(SaleSealed),
    Aborted(SaleAborted),
}

/// A cross-chain message after the bridge has verified its signatures and
/// parsed its payload.  The core still checks its origin and consumes its
/// fingerprint at most once.
pub struct VerifiedVaa {
    /// Chain the message was emitted on.
    pub emitter_chain: u16,
    /// Contract that emitted it there.
    pub emitter_address: Vec<u8>,
    /// Collision-free digest of the whole message, for replay protection.
    pub fingerprint: Vec<u8>,
    pub body: VaaBody,
}

// ---------------------------------------------------------------------------
// What each action rejects, and what it does
// ---------------------------------------------------------------------------

/// The error, if any, that originating a sale from `a` must return on `pre`.
pub open spec fn init_err(pre: Contributor, a: SaleInit) -> Option<ContributorError> {
    if a.conductor_chain != pre.config.conductor_chain {
        Some(ContributorError::UnsupportedConductor)
    } else if pre.has_sale(a.sale_id@) {
        Some(ContributorError::DuplicateSale)
    } else if a.accepted@.len() > 256 {
        Some(ContributorError::UnauthorizedOrMalformedVaa)
    } else {
        None
    }
}

/// The error, if any, that sealing `sid` with `n_allocs` slot terms at time
/// `now` must return on `pre`.
pub open spec fn seal_err(pre: Contributor, now: u64, sid: Seq<u8>, n_allocs: int) -> Option<
    ContributorError,
> {
    if !pre.has_sale(sid) {
        Some(ContributorError::UnknownSale)
    } else if pre.sale_at(sid).status != SaleStatus::Active {
        Some(ContributorError::SaleNotActive)
    } else if now <= pre.sale_at(sid).times.end {
        Some(ContributorError::SaleNotYetEnded)
    } else if n_allocs != pre.sale_at(sid).slots@.len() {
        Some(ContributorError::UnauthorizedOrMalformedVaa)
    } else {
        None
    }
}

/// The error, if any, that aborting `sid` at time `now` must return on `pre`.
pub open spec fn abort_err(pre: Contributor, now: u64, sid: Seq<u8>) -> Option<ContributorError> {
    if !pre.has_sale(sid) {
        Some(ContributorError::UnknownSale)
    } else if pre.sale_at(sid).status != SaleStatus::Active {
        Some(ContributorError::SaleNotActive)
    } else if now <= pre.sale_at(sid).times.end {
        Some(ContributorError::SaleNotYetEnded)
    } else {
        None
    }
}

/// A freshly created slot mirrors its payload terms with an empty ledger.
pub open spec fn slot_matches(sl: SlotState, a: AcceptedAsset) -> bool {
    &&& sl.asset.key() == a.asset.key()
    &&& sl.decimals == a.decimals
    &&& sl.cap == a.cap
    &&& sl.total == 0
    &&& sl.allocation == 0
    &&& sl.excess == 0
    &&& sl.buyers@.len() == 0
}

/// Effect of originating a sale: the new entry exists with the payload's
/// terms, status `Active` and empty ledgers; nothing else moves.
pub open spec fn init_effect(pre: Contributor, post: Contributor, a: SaleInit) -> bool {
    &&& post.config == pre.config
    &&& post.has_sale(a.sale_id@)
    &&& ({
        let e = post.sale_at(a.sale_id@);
        &&& e.id@ == a.sale_id@
        &&& e.token@ == a.token@
        &&& e.times == a.times
        &&& e.status == SaleStatus::Active
        &&& e.slots@.len() == a.accepted@.len()
        &&& forall|j: int|
            0 <= j < a.accepted@.len() ==> slot_matches(#[trigger] e.slots@[j], a.accepted@[j])
    })
    &&& forall|s: Seq<u8>| s != a.sale_id@ ==> post.has_sale(s) == pre.has_sale(s)
    &&& forall|s: Seq<u8>|
        pre.has_sale(s) && s != a.sale_id@ ==> post.sale_at(s) == pre.sale_at(s)
}

/// A sealed slot keeps its terms and ledger and gains its allocation data.
pub open spec fn sealed_slot(post_sl: SlotState, pre_sl: SlotState, al: SlotSealed) -> bool {
    &&& post_sl.asset == pre_sl.asset
    &&& post_sl.decimals == pre_sl.decimals
    &&& post_sl.cap == pre_sl.cap
    &&& post_sl.total == pre_sl.total
    &&& post_sl.buyers == pre_sl.buyers
    &&& post_sl.allocation == al.allocation
    &&& post_sl.excess == al.excess
}

/// Effect of sealing: the sale's status becomes `Sealed` and every slot
/// receives its allocation terms; nothing else moves.
pub open spec fn seal_effect(
    pre: Contributor,
    post: Contributor,
    sid: Seq<u8>,
    allocs: Seq<SlotSealed>,
) -> bool {
    &&& post.config == pre.config
    &&& pre.has_sale(sid)
    &&& post.has_sale(sid)
    &&& ({
        let e0 = pre.sale_at(sid);
        let e1 = post.sale_at(sid);
        &&& e1.id == e0.id
        &&& e1.token == e0.token
        &&& e1.times == e0.times
        &&& e1.status == SaleStatus::Sealed
        &&& e1.slots@.len() == e0.slots@.len()
        &&& forall|j: int|
            0 <= j < e0.slots@.len() ==> sealed_slot(#[trigger] e1.slots@[j], e0.slots@[j], allocs[j])
    })
    &&& forall|s: Seq<u8>| post.has_sale(s) == pre.has_sale(s)
    &&& forall|s: Seq<u8>| pre.has_sale(s) && s != sid ==> post.sale_at(s) == pre.sale_at(s)
}

/// Effect of aborting: only the sale's status changes, to `Aborted`.
pub open spec fn abort_effect(pre: Contributor, post: Contributor, sid: Seq<u8>) -> bool {
    &&& post.config == pre.config
    &&& pre.has_sale(sid)
    &&& post.has_sale(sid)
    &&& ({
        let e0 = pre.sale_at(sid);
        let e1 = post.sale_at(sid);
        &&& e1.id == e0.id
        &&& e1.token == e0.token
        &&& e1.times == e0.times
        &&& e1.status == SaleStatus::Aborted
        &&& e1.slots == e0.slots
    })
    &&& forall|s: Seq<u8>| post.has_sale(s) == pre.has_sale(s)
    &&& forall|s: Seq<u8>| pre.has_sale(s) && s != sid ==> post.sale_at(s) == pre.sale_at(s)
}

/// The error, if any, that submitting `vaa` at time `now` must return:
/// origin check, then replay check, then the action's own preconditions.
pub open spec fn gate_err(pre: Contributor, now: u64, vaa: VerifiedVaa) -> Option<
    ContributorError,
> {
    if vaa.emitter_chain != pre.config.conductor_chain
        || vaa.emitter_address@ != pre.config.conductor_address@ {
        Some(ContributorError::UnauthorizedOrMalformedVaa)
    } else if pre.is_consumed(vaa.fingerprint@) {
        Some(ContributorError::VaaAlreadyConsumed)
    } else {
        match vaa.body {
            VaaBody::Init(a) => init_err(pre, a),
            VaaBody::Sealed(sd) => seal_err(pre, now, sd.sale_id@, sd.allocations@.len() as int),
            VaaBody::Aborted(ad) => abort_err(pre, now, ad.sale_id@),
        }
    }
}

// ---------------------------------------------------------------------------
// Laws of the ingestion gate and the lifecycle
// ---------------------------------------------------------------------------

/// A consumed fingerprint is rejected on any subsequent submission,
/// regardless of the payload it now arrives with: the ingestion gate never accepts a
/// message whose fingerprint is already in the consumed set.
pub proof fn lemma_consumed_fingerprint_rejected(pre: Contributor, now: u64, vaa: VerifiedVaa)
    requires
        pre.is_consumed(vaa.fingerprint@),
    ensures
        gate_err(pre, now, vaa) is Some,
{
}

/// Terminal statuses are stable: whatever verified message the ingestion gate
/// applies, a sale that already left `Active` keeps its status.  Together
/// with `seal_err` and `abort_err`, which admit only an `Active` sale, the
/// only transitions a sale can ever make are `Active` to `Sealed` and
/// `Active` to `Aborted`; a second sealing or aborting message fails with
/// `SaleNotActive`.
pub proof fn lemma_terminal_status_stable(
    pre: Contributor,
    post: Contributor,
    now: u64,
    vaa: VerifiedVaa,
)
    requires
        gate_err(pre, now, vaa) is None,
        match vaa.body {
            VaaBody::Init(a) => init_effect(pre, post, a),
            VaaBody::Sealed(sd) => seal_effect(pre, post, sd.sale_id@, sd.allocations@),
            VaaBody::Aborted(ad) => abort_effect(pre, post, ad.sale_id@),
        },
    ensures
        forall|s: Seq<u8>|
            pre.has_sale(s) && (#[trigger] pre.sale_at(s).status) != SaleStatus::Active
                ==> post.has_sale(s) && post.sale_at(s).status == pre.sale_at(s).status,
{
    assert forall|s: Seq<u8>|
        pre.has_sale(s) && (#[trigger] pre.sale_at(s).status) != SaleStatus::Active implies post
        .has_sale(s) && post.sale_at(s).status == pre.sale_at(s).status by {
        match vaa.body {
            VaaBody::Init(a) => {
                assert(!pre.has_sale(a.sale_id@));
                assert(s != a.sale_id@);
            },
            VaaBody::Sealed(sd) => {
                assert(pre.sale_at(sd.sale_id@).status == SaleStatus::Active);
                assert(s != sd.sale_id@);
            },
            VaaBody::Aborted(ad) => {
                assert(pre.sale_at(ad.sale_id@).status == SaleStatus::Active);
                assert(s != ad.sale_id@);
            },
        }
    }
}

// ---------------------------------------------------------------------------
// Sale registry
// ---------------------------------------------------------------------------

impl Contributor {
    /// Originate a sale from a verified origination payload.
    ///
    /// Rejects a payload whose stated conductor is not the configured one
    /// (`UnsupportedConductor`) and a sale identifier that already exists
    /// (`DuplicateSale`).  On success the sale starts `Active` with an
    /// empty ledger for each accepted slot.
    pub fn init_sale(&mut self, action: SaleInit) -> (r: Result<(), ContributorError>)
        requires
            old(self).inv(),
        ensures
            final(self).inv(),
            match r {
                Err(e) => {
                    &&& *final(self) == *old(self)
                    &&& init_err(*old(self), action) == Some(e)
                },
                Ok(_) => {
                    &&& init_err(*old(self), action) is None
                    &&& init_effect(*old(self), *final(self), action)
                    &&& final(self).consumed@ == old(self).consumed@
                },
            },
    {
        if action.conductor_chain != self.config.conductor_chain {
            return Err(ContributorError::UnsupportedConductor);
        }
        if self.find_sale(action.sale_id.as_slice()).is_some() {
            return Err(ContributorError::DuplicateSale);
        }
        if action.accepted.len() > 256 {
            return Err(ContributorError::UnauthorizedOrMalformedVaa);
        }
        let SaleInit { sale_id, token, conductor_chain: _, times, accepted } = action;
        let n = accepted.len();
        let mut slots: Vec<SlotState> = Vec::new();
        let mut j: usize = 0;
        while j < n
            invariant
                n == accepted@.len(),
                0 <= j <= n,
                slots@.len() == j,
                forall|k: int| 0 <= k < j ==> slot_matches(#[trigger] slots@[k], accepted@[k]),
            decreases n - j,
        {
            let a = &accepted[j];
            slots.push(
                SlotState {
                    asset: copy_asset(&a.asset),
                    decimals: a.decimals,
                    cap: a.cap,
                    total: 0,
                    allocation: 0,
                    excess: 0,
                    buyers: Vec::new(),
                },
            );
            j += 1;
        }
        let entry = SaleEntry { id: sale_id, token, times, status: SaleStatus::Active, slots };
        let ghost ge = entry;
        let ghost pre = *self;
        self.sales.push(entry);
        proof {
            lemma_sale_push_frame(pre, *self, ge);
            assert forall|i: int| 0 <= i < self.sales@.len() implies sale_inv(
                #[trigger] self.sales@[i],
            ) by {
                if i < pre.sales@.len() {
                    assert(self.sales@[i] == pre.sales@[i]);
                } else {
                    assert(self.sales@[i] == ge);
                    assert forall|k: int| 0 <= k < ge.slots@.len() implies slot_inv(
                        #[trigger] ge.slots@[k],
                    ) by {
                        assert(slot_matches(ge.slots@[k], accepted@[k]));
                        assert(crate::state::sum_amounts(ge.slots@[k].buyers@) == 0);
                    }
                }
            }
        }
        Ok(())
    }

    /// Seal a sale from a verified sealing payload: only after the sale's
    /// window has closed, only once, and only with a term for every slot.
    pub fn sale_sealed(&mut self, now: u64, action: SaleSealed) -> (r: Result<
        (),
        ContributorError,
    >)
        requires
            old(self).inv(),
        ensures
            final(self).inv(),
            match r {
                Err(e) => {
                    &&& *final(self) == *old(self)
                    &&& seal_err(*old(self), now, action.sale_id@, action.allocations@.len() as int)
                        == Some(e)
                },
                Ok(_) => {
                    &&& seal_err(*old(self), now, action.sale_id@, action.allocations@.len() as int)
                        is None
                    &&& seal_effect(*old(self), *final(self), action.sale_id@, action.allocations@)
                    &&& final(self).consumed@ == old(self).consumed@
                },
            },
    {
        let i = match self.find_sale(action.sale_id.as_slice()) {
            None => {
                return Err(ContributorError::UnknownSale);
            },
            Some(i) => i,
        };
        let e = &self.sales[i];
        match e.status {
            SaleStatus::Active => {},
            _ => {
                return Err(ContributorError::SaleNotActive);
            },
        }
        if now <= e.times.end {
            return Err(ContributorError::SaleNotYetEnded);
        }
        if action.allocations.len() != e.slots.len() {
            return Err(ContributorError::UnauthorizedOrMalformedVaa);
        }
        let ghost pre = *self;
        let ghost oe = pre.sales@[i as int];
        let mut entry = blank_sale();
        self.sales.set_and_swap(i, &mut entry);
        entry.status = SaleStatus::Sealed;
        let n = entry.slots.len();
        let mut j: usize = 0;
        while j < n
            invariant
                n == entry.slots@.len(),
                n == oe.slots@.len(),
                n == action.allocations@.len(),
                0 <= j <= n,
                entry.id == oe.id,
                entry.token == oe.token,
                entry.times == oe.times,
                entry.status == SaleStatus::Sealed,
                forall|k: int|
                    0 <= k < j ==> sealed_slot(
                        #[trigger] entry.slots@[k],
                        oe.slots@[k],
                        action.allocations@[k],
                    ),
                forall|k: int| j <= k < n ==> (#[trigger] entry.slots@[k]) == oe.slots@[k],
            decreases n - j,
        {
            let al = action.allocations[j];
            let mut sl = blank_slot();
            entry.slots.set_and_swap(j, &mut sl);
            sl.allocation = al.allocation;
            sl.excess = al.excess;
            entry.slots.set(j, sl);
            j += 1;
        }
        let ghost ne = entry;
        self.sales.set(i, entry);
        proof {
            assert(self.sales@ =~= pre.sales@.update(i as int, ne));
            lemma_sale_update_frame(pre, *self, i as int, action.sale_id@);
            assert forall|ii: int| 0 <= ii < self.sales@.len() implies sale_inv(
                #[trigger] self.sales@[ii],
            ) by {
                if ii != i as int {
                    assert(self.sales@[ii] == pre.sales@[ii]);
                } else {
                    assert(self.sales@[ii] == ne);
                    assert(sale_inv(oe));
                    assert forall|k: int| 0 <= k < ne.slots@.len() implies slot_inv(
                        #[trigger] ne.slots@[k],
                    ) by {
                        assert(sealed_slot(ne.slots@[k], oe.slots@[k], action.allocations@[k]));
                        assert(slot_inv(oe.slots@[k]));
                    }
                }
            }
        }
        Ok(())
    }

    /// Abort a sale from a verified aborting payload: only after the sale's
    /// window has closed, and only once.  Refunds become the only exit.
    pub fn sale_aborted(&mut self, now: u64, action: SaleAborted) -> (r: Result<
        (),
        ContributorError,
    >)
        requires
            old(self).inv(),
        ensures
            final(self).inv(),
            match r {
                Err(e) => {
                    &&& *final(self) == *old(self)
                    &&& abort_err(*old(self), now, action.sale_id@) == Some(e)
                },
                Ok(_) => {
                    &&& abort_err(*old(self), now, action.sale_id@) is None
                    &&& abort_effect(*old(self), *final(self), action.sale_id@)
                    &&& final(self).consumed@ == old(self).consumed@
                },
            },
    {
        let i = match self.find_sale(action.sale_id.as_slice()) {
            None => {
                return Err(ContributorError::UnknownSale);
            },
            Some(i) => i,
        };
        let e = &self.sales[i];
        match e.status {
            SaleStatus::Active => {},
            _ => {
                return Err(ContributorError::SaleNotActive);
            },
        }
        if now <= e.times.end {
            return Err(ContributorError::SaleNotYetEnded);
        }
        let ghost pre = *self;
        let ghost oe = pre.sales@[i as int];
        let mut entry = blank_sale();
        self.sales.set_and_swap(i, &mut entry);
        entry.status = SaleStatus::Aborted;
        let ghost ne = entry;
        self.sales.set(i, entry);
        proof {
            assert(self.sales@ =~= pre.sales@.update(i as int, ne));
            lemma_sale_update_frame(pre, *self, i as int, action.sale_id@);
            assert forall|ii: int| 0 <= ii < self.sales@.len() implies sale_inv(
                #[trigger] self.sales@[ii],
            ) by {
                if ii != i as int {
                    assert(self.sales@[ii] == pre.sales@[ii]);
                } else {
                    assert(sale_inv(oe));
                    assert forall|k: int| 0 <= k < ne.slots@.len() implies slot_inv(
                        #[trigger] ne.slots@[k],
                    ) by {
                        assert(slot_inv(oe.slots@[k]));
                    }
                    assert(oe.status == SaleStatus::Active);
                    assert(oe.status != SaleStatus::Sealed);
                    assert(forall|j2: int|
                        0 <= j2 < oe.slots@.len() ==> (#[trigger] oe.slots@[j2].allocation) == 0
                            && oe.slots@[j2].excess == 0);
                    assert forall|k: int| 0 <= k < ne.slots@.len() implies (#[trigger] ne
                        .slots@[k].allocation) == 0 && ne.slots@[k].excess == 0 by {
                        assert(oe.slots@[k].allocation == 0 && oe.slots@[k].excess == 0);
                    }
                }
            }
        }
        Ok(())
    }

    // -----------------------------------------------------------------------
    // Ingestion gate
    // -----------------------------------------------------------------------

    /// Submit a verified cross-chain message.
    ///
    /// The ingestion gate authenticates the origin against the configured conductor,
    /// rejects a fingerprint that was consumed before — regardless of the
    /// payload it now arrives with — and applies the action.  Consuming the
    /// fingerprint and applying the action happen in the same call: a failed
    /// action leaves the fingerprint unconsumed and the state untouched.
    pub fn ingest_vaa(&mut self, now: u64, vaa: VerifiedVaa) -> (r: Result<(), ContributorError>)
        requires
            old(self).inv(),
        ensures
            final(self).inv(),
            match r {
                Err(e) => {
                    &&& *final(self) == *old(self)
                    &&& gate_err(*old(self), now, vaa) == Some(e)
                },
                Ok(_) => {
                    &&& gate_err(*old(self), now, vaa) is None
                    &&& match vaa.body {
                        VaaBody::Init(a) => init_effect(*old(self), *final(self), a),
                        VaaBody::Sealed(sd) => seal_effect(
                            *old(self),
                            *final(self),
                            sd.sale_id@,
                            sd.allocations@,
                        ),
                        VaaBody::Aborted(ad) => abort_effect(*old(self), *final(self), ad.sale_id@),
                    }
                    &&& forall|f: Seq<u8>|
                        final(self).is_consumed(f) <==> old(self).is_consumed(f) || f
                            == vaa.fingerprint@
                    &&& final(self).is_consumed(vaa.fingerprint@)
                },
            },
    {
        let ghost gvaa = vaa;
        let VerifiedVaa { emitter_chain, emitter_address, fingerprint, body } = vaa;
        if emitter_chain != self.config.conductor_chain
            || !crate::types::bytes_eq(emitter_address.as_slice(), self.config.conductor_address.as_slice()) {
            return Err(ContributorError::UnauthorizedOrMalformedVaa);
        }
        if self.consumed_contains(fingerprint.as_slice()) {
            return Err(ContributorError::VaaAlreadyConsumed);
        }
        let res = match body {
            VaaBody::Init(a) => self.init_sale(a),
            VaaBody::Sealed(sd) => self.sale_sealed(now, sd),
            VaaBody::Aborted(ad) => self.sale_aborted(now, ad),
        };
        match res {
            Err(e) => Err(e),
            Ok(_) => {
                let ghost mid = *self;
                self.consumed.push(fingerprint);
                proof {
                    lemma_same_sales_same_accessors(mid, *self);
                    assert(mid.consumed@ == old(self).consumed@);
                    let n = old(self).consumed@.len() as int;
                    assert(self.consumed@[n]@ == gvaa.fingerprint@);
                    assert forall|f: Seq<u8>|
                        self.is_consumed(f) <==> (old(self).is_consumed(f) || f
                            == gvaa.fingerprint@) by {
                        if old(self).is_consumed(f) {
                            let k = choose|k: int|
                                0 <= k < old(self).consumed@.len() && (#[trigger] old(
                                    self,
                                ).consumed@[k]@) == f;
                            assert(self.consumed@[k]@ == f);
                            assert(self.is_consumed(f));
                        }
                        if f == gvaa.fingerprint@ {
                            assert(self.consumed@[n]@ == f);
                            assert(self.is_consumed(f));
                        }
                        if self.is_consumed(f) {
                            let k = choose|k: int|
                                0 <= k < self.consumed@.len() && (#[trigger] self.consumed@[k]@)
                                    == f;
                            if k < n {
                                assert(old(self).consumed@[k]@ == f);
                                assert(old(self).is_consumed(f));
                            } else {
                                assert(f == gvaa.fingerprint@);
                            }
                        }
                    }
                }
                Ok(())
            },
        }
    }
}

} // verus!
