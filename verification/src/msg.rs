use vstd::prelude::*;

use crate::claims::{
    claim_allocation_err, claim_effect, claim_excess_refund_err, claim_refund_err, prior_amount,
    prior_status, share,
};
use crate::errors::ContributorError;
use crate::ledger::{contribute_effect, contribute_err, reconcile_effect, reconcile_err};
use crate::state::Contributor;
use crate::types::{AssetInfo, AssetTransfer, BuyerStatus, TokenTransfer};
use crate::vaa::{abort_effect, gate_err, init_effect, seal_effect, VaaBody, VerifiedVaa};

verus! {

/// The closed set of state-changing calls a host can dispatch to the core.
/// The lifecycle messages carry a verified cross-chain payload; the buyer
/// messages act for the sender the host authenticated.
pub enum ExecuteMsg {
    InitSale { vaa: VerifiedVaa },
    Contribute { sale_id: Vec<u8>, token_index: u8, amount: u128 },
    AttestContributions { sale_id: Vec<u8> },
    SaleSealed { vaa: VerifiedVaa },
    ClaimAllocation { sale_id: Vec<u8>, token_index: u8 },
    SaleAborted { vaa: VerifiedVaa },
    ClaimRefund { sale_id: Vec<u8>, token_index: u8 },
    ClaimExcessRefund { sale_id: Vec<u8>, token_index: u8 },
    EscrowUserContributionHook {
        sale_id: Vec<u8>,
        token_index: u8,
        buyer: Vec<u8>,
        actual_amount: u128,
    },
}

/// What the host must carry out after a successful call commits.
pub enum Effect {
    /// State changed; nothing to move.
    Committed,
    /// Pull the asset from the caller into escrow.
    PullToEscrow(AssetTransfer),
    /// Send the asset from escrow back to the caller.
    ReleaseAsset(AssetTransfer),
    /// Send the sold token to the caller.
    SendSoldToken(TokenTransfer),
    /// Report the per-slot contribution totals to the conductor.
    AttestTotals(Vec<u128>),
}

/// The consumed-fingerprint set grew by exactly `fp`.
pub open spec fn consumed_extended(pre: Contributor, post: Contributor, fp: Seq<u8>) -> bool {
    &&& forall|f: Seq<u8>| post.is_consumed(f) <==> pre.is_consumed(f) || f == fp
    &&& post.is_consumed(fp)
}

/// Exactly what `execute` must do for each message: the dispatched call's
/// own error discipline and effect, with a payload of the wrong kind
/// rejected as unauthorized before anything is consumed.
pub open spec fn execute_spec(
    pre: Contributor,
    post: Contributor,
    now: u64,
    sender: Seq<u8>,
    msg: ExecuteMsg,
    r: Result<Effect, ContributorError>,
) -> bool {
    match msg {
        ExecuteMsg::InitSale { vaa } => match r {
            Err(e) => post == pre && (match vaa.body {
                VaaBody::Init(_) => gate_err(pre, now, vaa) == Some(e),
                _ => e == ContributorError::UnauthorizedOrMalformedVaa,
            }),
            Ok(ef) => match vaa.body {
                VaaBody::Init(a) => {
                    &&& gate_err(pre, now, vaa) is None
                    &&& init_effect(pre, post, a)
                    &&& consumed_extended(pre, post, vaa.fingerprint@)
                    &&& ef is Committed
                },
                _ => false,
            },
        },
        ExecuteMsg::SaleSealed { vaa } => match r {
            Err(e) => post == pre && (match vaa.body {
                VaaBody::Sealed(_) => gate_err(pre, now, vaa) == Some(e),
                _ => e == ContributorError::UnauthorizedOrMalformedVaa,
            }),
            Ok(ef) => match vaa.body {
                VaaBody::Sealed(sd) => {
                    &&& gate_err(pre, now, vaa) is None
                    &&& seal_effect(pre, post, sd.sale_id@, sd.allocations@)
                    &&& consumed_extended(pre, post, vaa.fingerprint@)
                    &&& ef is Committed
                },
                _ => false,
            },
        },
        ExecuteMsg::SaleAborted { vaa } => match r {
            Err(e) => post == pre && (match vaa.body {
                VaaBody::Aborted(_) => gate_err(pre, now, vaa) == Some(e),
                _ => e == ContributorError::UnauthorizedOrMalformedVaa,
            }),
            Ok(ef) => match vaa.body {
                VaaBody::Aborted(ad) => {
                    &&& gate_err(pre, now, vaa) is None
                    &&& abort_effect(pre, post, ad.sale_id@)
                    &&& consumed_extended(pre, post, vaa.fingerprint@)
                    &&& ef is Committed
                },
                _ => false,
            },
        },
        ExecuteMsg::Contribute { sale_id, token_index, amount } => match r {
            Err(e) => post == pre && contribute_err(pre, now, sale_id@, token_index as int, amount)
                == Some(e),
            Ok(ef) => {
                &&& contribute_err(pre, now, sale_id@, token_index as int, amount) is None
                &&& contribute_effect(pre, post, sale_id@, token_index as int, sender, amount)
                &&& match ef {
                    Effect::PullToEscrow(ins) => ins.amount == amount && ins.asset.key()
                        == pre.sale_at(sale_id@).slots@[token_index as int].asset.key(),
                    _ => false,
                }
            },
        },
        ExecuteMsg::AttestContributions { sale_id } => {
            &&& post == pre
            &&& match r {
                Err(e) => if !pre.has_sale(sale_id@) {
                    e == ContributorError::UnknownSale
                } else {
                    now <= pre.sale_at(sale_id@).times.end && e
                        == ContributorError::SaleNotYetEnded
                },
                Ok(ef) => match ef {
                    Effect::AttestTotals(v) => {
                        &&& pre.has_sale(sale_id@)
                        &&& now > pre.sale_at(sale_id@).times.end
                        &&& v@.len() == pre.sale_at(sale_id@).slots@.len()
                        &&& forall|k: int|
                            0 <= k < v@.len() ==> (#[trigger] v@[k]) == pre.sale_at(
                                sale_id@,
                            ).slots@[k].total
                    },
                    _ => false,
                },
            }
        },
        ExecuteMsg::ClaimAllocation { sale_id, token_index } => match r {
            Err(e) => post == pre && claim_allocation_err(pre, sale_id@, token_index as int, sender)
                == Some(e),
            Ok(ef) => ({
                let e0 = pre.sale_at(sale_id@);
                let s0 = e0.slots@[token_index as int];
                let st0 = prior_status(s0.buyers@, sender);
                &&& claim_allocation_err(pre, sale_id@, token_index as int, sender) is None
                &&& claim_effect(
                    pre,
                    post,
                    sale_id@,
                    token_index as int,
                    sender,
                    (BuyerStatus {
                        allocation_claimed: true,
                        refund_claimed: st0.refund_claimed,
                        excess_refund_claimed: st0.excess_refund_claimed,
                    }),
                )
                &&& match ef {
                    Effect::SendSoldToken(t) => t.token@ == e0.token@ && t.amount as int == share(
                        s0.allocation,
                        prior_amount(s0.buyers@, sender),
                        s0.total,
                    ),
                    _ => false,
                }
            }),
        },
        ExecuteMsg::ClaimRefund { sale_id, token_index } => match r {
            Err(e) => post == pre && claim_refund_err(pre, sale_id@, token_index as int, sender)
                == Some(e),
            Ok(ef) => ({
                let s0 = pre.sale_at(sale_id@).slots@[token_index as int];
                let st0 = prior_status(s0.buyers@, sender);
                &&& claim_refund_err(pre, sale_id@, token_index as int, sender) is None
                &&& claim_effect(
                    pre,
                    post,
                    sale_id@,
                    token_index as int,
                    sender,
                    (BuyerStatus {
                        allocation_claimed: st0.allocation_claimed,
                        refund_claimed: true,
                        excess_refund_claimed: st0.excess_refund_claimed,
                    }),
                )
                &&& match ef {
                    Effect::ReleaseAsset(t) => t.asset.key() == s0.asset.key() && t.amount as int
                        == prior_amount(s0.buyers@, sender),
                    _ => false,
                }
            }),
        },
        ExecuteMsg::ClaimExcessRefund { sale_id, token_index } => match r {
            Err(e) => post == pre && claim_excess_refund_err(
                pre,
                sale_id@,
                token_index as int,
                sender,
            ) == Some(e),
            Ok(ef) => ({
                let s0 = pre.sale_at(sale_id@).slots@[token_index as int];
                let st0 = prior_status(s0.buyers@, sender);
                &&& claim_excess_refund_err(pre, sale_id@, token_index as int, sender) is None
                &&& claim_effect(
                    pre,
                    post,
                    sale_id@,
                    token_index as int,
                    sender,
                    (BuyerStatus {
                        allocation_claimed: st0.allocation_claimed,
                        refund_claimed: st0.refund_claimed,
                        excess_refund_claimed: true,
                    }),
                )
                &&& match ef {
                    Effect::ReleaseAsset(t) => t.asset.key() == s0.asset.key() && t.amount as int
                        == share(s0.excess, prior_amount(s0.buyers@, sender), s0.total),
                    _ => false,
                }
            }),
        },
        ExecuteMsg::EscrowUserContributionHook { sale_id, token_index, buyer, actual_amount } => match r {
            Err(e) => post == pre && reconcile_err(pre, sale_id@, token_index as int, buyer@)
                == Some(e),
            Ok(ef) => {
                &&& reconcile_err(pre, sale_id@, token_index as int, buyer@) is None
                &&& reconcile_effect(
                    pre,
                    post,
                    sale_id@,
                    token_index as int,
                    buyer@,
                    actual_amount,
                )
                &&& ef is Committed
            },
        },
    }
}

/// The closed set of read-only calls a host can dispatch to the core.
pub enum QueryMsg {
    Config {},
    Sale { sale_id: Vec<u8> },
    SaleStatus { sale_id: Vec<u8> },
    SaleTimes { sale_id: Vec<u8> },
    TotalContribution { sale_id: Vec<u8>, token_index: u8 },
    TotalAllocation { sale_id: Vec<u8>, token_index: u8 },
    AcceptedAsset { sale_id: Vec<u8>, token_index: u8 },
    AssetIndex { sale_id: Vec<u8>, asset_info: AssetInfo },
    BuyerStatus { sale_id: Vec<u8>, token_index: u8, buyer: Vec<u8> },
}

/// A typed answer to one read-only call; the host encodes it on the wire.
pub enum QueryAnswer<'a> {
    ConfigInfo(&'a crate::state::Config),
    SaleInfo(&'a crate::state::SaleEntry),
    SaleStatusInfo(crate::types::SaleStatus),
    SaleTimesInfo(crate::types::SaleTimes),
    TotalContributionInfo(u128),
    TotalAllocationInfo(u128),
    AcceptedAssetInfo(&'a AssetInfo),
    AssetIndexInfo(u8),
    BuyerStatusInfo(BuyerStatus),
}

/// Exactly what `query` must answer for each message: the dispatched
/// query's own result and error discipline.
pub open spec fn query_spec(
    pre: Contributor,
    msg: QueryMsg,
    r: Result<QueryAnswer, ContributorError>,
) -> bool {
    match msg {
        QueryMsg::Config {} => match r {
            Ok(a) => a matches QueryAnswer::ConfigInfo(c) && *c == pre.config,
            Err(_) => false,
        },
        QueryMsg::Sale { sale_id } => match r {
            Ok(a) => a matches QueryAnswer::SaleInfo(e) && pre.has_sale(sale_id@) && *e
                == pre.sale_at(sale_id@),
            Err(e) => !pre.has_sale(sale_id@) && e == ContributorError::UnknownSale,
        },
        QueryMsg::SaleStatus { sale_id } => match r {
            Ok(a) => a matches QueryAnswer::SaleStatusInfo(st) && pre.has_sale(sale_id@) && st
                == pre.sale_at(sale_id@).status,
            Err(e) => !pre.has_sale(sale_id@) && e == ContributorError::UnknownSale,
        },
        QueryMsg::SaleTimes { sale_id } => match r {
            Ok(a) => a matches QueryAnswer::SaleTimesInfo(t) && pre.has_sale(sale_id@) && t
                == pre.sale_at(sale_id@).times,
            Err(e) => !pre.has_sale(sale_id@) && e == ContributorError::UnknownSale,
        },
        QueryMsg::TotalContribution { sale_id, token_index } => match r {
            Ok(a) => a matches QueryAnswer::TotalContributionInfo(v) && pre.has_sale(sale_id@)
                && (token_index as int) < pre.sale_at(sale_id@).slots@.len() && v == pre.sale_at(
                sale_id@,
            ).slots@[token_index as int].total,
            Err(e) => if !pre.has_sale(sale_id@) {
                e == ContributorError::UnknownSale
            } else {
                (token_index as int) >= pre.sale_at(sale_id@).slots@.len() && e
                    == ContributorError::InvalidAssetSlot
            },
        },
        QueryMsg::TotalAllocation { sale_id, token_index } => match r {
            Ok(a) => a matches QueryAnswer::TotalAllocationInfo(v) && pre.has_sale(sale_id@)
                && (token_index as int) < pre.sale_at(sale_id@).slots@.len() && pre.sale_at(
                sale_id@,
            ).status == crate::types::SaleStatus::Sealed && v == pre.sale_at(
                sale_id@,
            ).slots@[token_index as int].allocation,
            Err(e) => if !pre.has_sale(sale_id@) {
                e == ContributorError::UnknownSale
            } else if (token_index as int) >= pre.sale_at(sale_id@).slots@.len() {
                e == ContributorError::InvalidAssetSlot
            } else {
                pre.sale_at(sale_id@).status != crate::types::SaleStatus::Sealed && e
                    == ContributorError::SaleNotSealed
            },
        },
        QueryMsg::AcceptedAsset { sale_id, token_index } => match r {
            Ok(a) => a matches QueryAnswer::AcceptedAssetInfo(x) && pre.has_sale(sale_id@)
                && (token_index as int) < pre.sale_at(sale_id@).slots@.len() && *x == pre.sale_at(
                sale_id@,
            ).slots@[token_index as int].asset,
            Err(e) => if !pre.has_sale(sale_id@) {
                e == ContributorError::UnknownSale
            } else {
                (token_index as int) >= pre.sale_at(sale_id@).slots@.len() && e
                    == ContributorError::InvalidAssetSlot
            },
        },
        QueryMsg::AssetIndex { sale_id, asset_info } => match r {
            Ok(a) => a matches QueryAnswer::AssetIndexInfo(ti) && pre.has_sale(sale_id@) && (
            ti as int) < pre.sale_at(sale_id@).slots@.len() && pre.sale_at(
                sale_id@,
            ).slots@[ti as int].asset.key() == asset_info.key(),
            Err(e) => if !pre.has_sale(sale_id@) {
                e == ContributorError::UnknownSale
            } else {
                e == ContributorError::InvalidAssetSlot && forall|k: int|
                    0 <= k < pre.sale_at(sale_id@).slots@.len() ==> (#[trigger] pre.sale_at(
                        sale_id@,
                    ).slots@[k].asset.key()) != asset_info.key()
            },
        },
        QueryMsg::BuyerStatus { sale_id, token_index, buyer } => match r {
            Ok(a) => a matches QueryAnswer::BuyerStatusInfo(st) && pre.has_sale(sale_id@)
                && (token_index as int) < pre.sale_at(sale_id@).slots@.len() && st == prior_status(
                pre.sale_at(sale_id@).slots@[token_index as int].buyers@,
                buyer@,
            ),
            Err(e) => if !pre.has_sale(sale_id@) {
                e == ContributorError::UnknownSale
            } else {
                (token_index as int) >= pre.sale_at(sale_id@).slots@.len() && e
                    == ContributorError::InvalidAssetSlot
            },
        },
    }
}

impl Contributor {
    /// Dispatch one read-only call.  All queries are pure reads against the
    /// committed state.
    pub fn query<'a>(&'a self, msg: &QueryMsg) -> (r: Result<QueryAnswer<'a>, ContributorError>)
        requires
            self.inv(),
        ensures
            query_spec(*self, *msg, r),
    {
        match msg {
            QueryMsg::Config {} => Ok(QueryAnswer::ConfigInfo(self.query_config())),
            QueryMsg::Sale { sale_id } => match self.query_sale(sale_id.as_slice()) {
                Ok(e) => Ok(QueryAnswer::SaleInfo(e)),
                Err(e) => Err(e),
            },
            QueryMsg::SaleStatus { sale_id } => match self.query_sale_status(sale_id.as_slice()) {
                Ok(st) => Ok(QueryAnswer::SaleStatusInfo(st)),
                Err(e) => Err(e),
            },
            QueryMsg::SaleTimes { sale_id } => match self.query_sale_times(sale_id.as_slice()) {
                Ok(t) => Ok(QueryAnswer::SaleTimesInfo(t)),
                Err(e) => Err(e),
            },
            QueryMsg::TotalContribution { sale_id, token_index } => match self
                .query_total_contribution(sale_id.as_slice(), *token_index) {
                Ok(v) => Ok(QueryAnswer::TotalContributionInfo(v)),
                Err(e) => Err(e),
            },
            QueryMsg::TotalAllocation { sale_id, token_index } => match self.query_total_allocation(
                sale_id.as_slice(),
                *token_index,
            ) {
                Ok(v) => Ok(QueryAnswer::TotalAllocationInfo(v)),
                Err(e) => Err(e),
            },
            QueryMsg::AcceptedAsset { sale_id, token_index } => match self.query_accepted_asset(
                sale_id.as_slice(),
                *token_index,
            ) {
                Ok(a) => Ok(QueryAnswer::AcceptedAssetInfo(a)),
                Err(e) => Err(e),
            },
            QueryMsg::AssetIndex { sale_id, asset_info } => match self.query_asset_index(
                sale_id.as_slice(),
                asset_info,
            ) {
                Ok(ti) => Ok(QueryAnswer::AssetIndexInfo(ti)),
                Err(e) => Err(e),
            },
            QueryMsg::BuyerStatus { sale_id, token_index, buyer } => match self.query_buyer_status(
                sale_id.as_slice(),
                *token_index,
                buyer.as_slice(),
            ) {
                Ok(st) => Ok(QueryAnswer::BuyerStatusInfo(st)),
                Err(e) => Err(e),
            },
        }
    }

    /// Dispatch one state-changing call.  `now` is the host's block time and
    /// `sender` the authenticated caller, who acts as the buyer in the
    /// contribution and claim messages.
    pub fn execute(&mut self, now: u64, sender: &[u8], msg: ExecuteMsg) -> (r: Result<
        Effect,
        ContributorError,
    >)
        requires
            old(self).inv(),
        ensures
            final(self).inv(),
            execute_spec(*old(self), *final(self), now, sender@, msg, r),
    {
        match msg {
            ExecuteMsg::InitSale { vaa } => {
                match &vaa.body {
                    VaaBody::Init(_) => {},
                    _ => {
                        return Err(ContributorError::UnauthorizedOrMalformedVaa);
                    },
                }
                match self.ingest_vaa(now, vaa) {
                    Err(e) => Err(e),
                    Ok(_) => Ok(Effect::Committed),
                }
            },
            ExecuteMsg::SaleSealed { vaa } => {
                match &vaa.body {
                    VaaBody::Sealed(_) => {},
                    _ => {
                        return Err(ContributorError::UnauthorizedOrMalformedVaa);
                    },
                }
                match self.ingest_vaa(now, vaa) {
                    Err(e) => Err(e),
                    Ok(_) => Ok(Effect::Committed),
                }
            },
            ExecuteMsg::SaleAborted { vaa } => {
                match &vaa.body {
                    VaaBody::Aborted(_) => {},
                    _ => {
                        return Err(ContributorError::UnauthorizedOrMalformedVaa);
                    },
                }
                match self.ingest_vaa(now, vaa) {
                    Err(e) => Err(e),
                    Ok(_) => Ok(Effect::Committed),
                }
            },
            ExecuteMsg::Contribute { sale_id, token_index, amount } => {
                match self.contribute(now, sale_id.as_slice(), token_index, sender, amount) {
                    Err(e) => Err(e),
                    Ok(ins) => Ok(Effect::PullToEscrow(ins)),
                }
            },
            ExecuteMsg::AttestContributions { sale_id } => {
                match self.attest_contributions(now, sale_id.as_slice()) {
                    Err(e) => Err(e),
                    Ok(v) => Ok(Effect::AttestTotals(v)),
                }
            },
            ExecuteMsg::ClaimAllocation { sale_id, token_index } => {
                match self.claim_allocation(sale_id.as_slice(), token_index, sender) {
                    Err(e) => Err(e),
                    Ok(t) => Ok(Effect::SendSoldToken(t)),
                }
            },
            ExecuteMsg::ClaimRefund { sale_id, token_index } => {
                match self.claim_refund(sale_id.as_slice(), token_index, sender) {
                    Err(e) => Err(e),
                    Ok(t) => Ok(Effect::ReleaseAsset(t)),
                }
            },
            ExecuteMsg::ClaimExcessRefund { sale_id, token_index } => {
                match self.claim_excess_refund(sale_id.as_slice(), token_index, sender) {
                    Err(e) => Err(e),
                    Ok(t) => Ok(Effect::ReleaseAsset(t)),
                }
            },
            ExecuteMsg::EscrowUserContributionHook {
                sale_id,
                token_index,
                buyer,
                actual_amount,
            } => {
                match self.escrow_user_contribution_hook(
                    sale_id.as_slice(),
                    token_index,
                    buyer.as_slice(),
                    actual_amount,
                ) {
                    Err(e) => Err(e),
                    Ok(_) => Ok(Effect::Committed),
                }
            },
        }
    }
}

} // verus!
