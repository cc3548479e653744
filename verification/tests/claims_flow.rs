use icco_contributor::errors::ContributorError;
use icco_contributor::msg::{Effect, ExecuteMsg, QueryAnswer, QueryMsg};
use icco_contributor::state::Contributor;
use icco_contributor::types::{AssetInfo, SaleStatus, SaleTimes};
use icco_contributor::vaa::{
    AcceptedAsset, SaleAborted, SaleInit, SaleSealed, SlotSealed, VaaBody, VerifiedVaa,
};

const OWN_CHAIN: u16 = 3;
const CONDUCTOR_CHAIN: u16 = 2;

fn fresh() -> Contributor {
    Contributor::instantiate(
        OWN_CHAIN,
        b"bridge".to_vec(),
        b"token-bridge".to_vec(),
        CONDUCTOR_CHAIN,
        b"conductor".to_vec(),
        b"owner".to_vec(),
    )
    .unwrap_or_else(|_| panic!("instantiation must succeed"))
}

fn token_asset(name: &[u8]) -> AssetInfo {
    AssetInfo::Token {
        contract_addr: name.to_vec(),
    }
}

fn init_vaa(fingerprint: &[u8], sale_id: &[u8], cap: Option<u128>) -> VerifiedVaa {
    VerifiedVaa {
        emitter_chain: CONDUCTOR_CHAIN,
        emitter_address: b"conductor".to_vec(),
        fingerprint: fingerprint.to_vec(),
        body: VaaBody::Init(SaleInit {
            sale_id: sale_id.to_vec(),
            token: b"sold-token".to_vec(),
            conductor_chain: CONDUCTOR_CHAIN,
            times: SaleTimes {
                start: 100,
                end: 200,
                unlock: 300,
            },
            accepted: vec![AcceptedAsset {
                asset: token_asset(b"asset-a"),
                decimals: 6,
                cap,
            }],
        }),
    }
}

fn seal_vaa(fingerprint: &[u8], sale_id: &[u8], allocation: u128, excess: u128) -> VerifiedVaa {
    VerifiedVaa {
        emitter_chain: CONDUCTOR_CHAIN,
        emitter_address: b"conductor".to_vec(),
        fingerprint: fingerprint.to_vec(),
        body: VaaBody::Sealed(SaleSealed {
            sale_id: sale_id.to_vec(),
            allocations: vec![SlotSealed { allocation, excess }],
        }),
    }
}

fn abort_vaa(fingerprint: &[u8], sale_id: &[u8]) -> VerifiedVaa {
    VerifiedVaa {
        emitter_chain: CONDUCTOR_CHAIN,
        emitter_address: b"conductor".to_vec(),
        fingerprint: fingerprint.to_vec(),
        body: VaaBody::Aborted(SaleAborted {
            sale_id: sale_id.to_vec(),
        }),
    }
}

fn err_of<T>(r: Result<T, ContributorError>) -> ContributorError {
    match r {
        Err(e) => e,
        Ok(_) => panic!("expected an error"),
    }
}

/// Two buyers contribute 1000 and 2000; the sale seals with the given
/// allocation and excess on its one slot.
fn sealed_two_buyer_sale(allocation: u128, excess: u128) -> Contributor {
    let mut c = fresh();
    c.ingest_vaa(50, init_vaa(b"fp-1", b"sale-1", None)).unwrap();
    c.contribute(150, b"sale-1", 0, b"buyer-a", 1000).unwrap();
    c.contribute(150, b"sale-1", 0, b"buyer-b", 2000).unwrap();
    c.ingest_vaa(250, seal_vaa(b"fp-2", b"sale-1", allocation, excess))
        .unwrap();
    c
}

#[test]
fn allocation_rounds_down_and_is_claimed_once() {
    let mut c = sealed_two_buyer_sale(1000, 0);
    assert_eq!(c.query_total_allocation(b"sale-1", 0).unwrap(), 1000);
    let ta = c.claim_allocation(b"sale-1", 0, b"buyer-a").unwrap();
    assert_eq!(ta.token, b"sold-token".to_vec());
    assert_eq!(ta.amount, 333); // 1000 * 1000 / 3000, rounded down
    let tb = c.claim_allocation(b"sale-1", 0, b"buyer-b").unwrap();
    assert_eq!(tb.amount, 666); // 1000 * 2000 / 3000, rounded down
    // One unit of the allocation stays unclaimed by design.
    assert!(ta.amount + tb.amount == 999);
    assert_eq!(
        err_of(c.claim_allocation(b"sale-1", 0, b"buyer-a")),
        ContributorError::AlreadyClaimed
    );
    assert_eq!(
        err_of(c.claim_allocation(b"sale-1", 0, b"buyer-b")),
        ContributorError::AlreadyClaimed
    );
}

#[test]
fn allocation_claim_requires_sealed_sale() {
    let mut c = fresh();
    c.ingest_vaa(50, init_vaa(b"fp-1", b"sale-1", None)).unwrap();
    c.contribute(150, b"sale-1", 0, b"buyer-a", 100).unwrap();
    assert_eq!(
        err_of(c.claim_allocation(b"sale-1", 0, b"buyer-a")),
        ContributorError::SaleNotSealed
    );
    assert_eq!(
        err_of(c.claim_allocation(b"no-sale", 0, b"buyer-a")),
        ContributorError::UnknownSale
    );
}

#[test]
fn allocation_with_zero_total_contribution_is_zero() {
    let mut c = fresh();
    c.ingest_vaa(50, init_vaa(b"fp-1", b"sale-1", None)).unwrap();
    c.ingest_vaa(250, seal_vaa(b"fp-2", b"sale-1", 1000, 0))
        .unwrap();
    let t = c.claim_allocation(b"sale-1", 0, b"buyer-a").unwrap();
    assert_eq!(t.amount, 0);
    assert_eq!(
        err_of(c.claim_allocation(b"sale-1", 0, b"buyer-a")),
        ContributorError::AlreadyClaimed
    );
}

#[test]
fn excess_refund_is_proportional_and_claimed_once() {
    let mut c = sealed_two_buyer_sale(1000, 900);
    let ra = c.claim_excess_refund(b"sale-1", 0, b"buyer-a").unwrap();
    assert_eq!(ra.amount, 300); // 900 * 1000 / 3000
    match ra.asset {
        AssetInfo::Token { contract_addr } => assert_eq!(contract_addr, b"asset-a".to_vec()),
        AssetInfo::NativeToken { .. } => panic!("wrong asset kind"),
    }
    let rb = c.claim_excess_refund(b"sale-1", 0, b"buyer-b").unwrap();
    assert_eq!(rb.amount, 600); // 900 * 2000 / 3000
    assert_eq!(
        err_of(c.claim_excess_refund(b"sale-1", 0, b"buyer-a")),
        ContributorError::AlreadyClaimed
    );
}

#[test]
fn refund_returns_reconciled_contribution_once() {
    let mut c = fresh();
    c.ingest_vaa(50, init_vaa(b"fp-1", b"sale-1", None)).unwrap();
    c.contribute(150, b"sale-1", 0, b"buyer-a", 100).unwrap();
    // Only 97 actually arrived; the refund must repay 97, not 100.
    c.escrow_user_contribution_hook(b"sale-1", 0, b"buyer-a", 97)
        .unwrap();
    c.ingest_vaa(250, abort_vaa(b"fp-2", b"sale-1")).unwrap();
    assert_eq!(c.query_sale_status(b"sale-1").unwrap(), SaleStatus::Aborted);
    let r = c.claim_refund(b"sale-1", 0, b"buyer-a").unwrap();
    assert_eq!(r.amount, 97);
    match r.asset {
        AssetInfo::Token { contract_addr } => assert_eq!(contract_addr, b"asset-a".to_vec()),
        AssetInfo::NativeToken { .. } => panic!("wrong asset kind"),
    }
    assert_eq!(
        err_of(c.claim_refund(b"sale-1", 0, b"buyer-a")),
        ContributorError::AlreadyClaimed
    );
}

#[test]
fn refund_requires_aborted_sale() {
    let mut c = sealed_two_buyer_sale(1000, 0);
    assert_eq!(
        err_of(c.claim_refund(b"sale-1", 0, b"buyer-a")),
        ContributorError::SaleNotAborted
    );
}

#[test]
fn allocation_claim_fails_on_aborted_sale() {
    let mut c = fresh();
    c.ingest_vaa(50, init_vaa(b"fp-1", b"sale-1", None)).unwrap();
    c.contribute(150, b"sale-1", 0, b"buyer-a", 100).unwrap();
    c.ingest_vaa(250, abort_vaa(b"fp-2", b"sale-1")).unwrap();
    assert_eq!(
        err_of(c.claim_allocation(b"sale-1", 0, b"buyer-a")),
        ContributorError::SaleNotSealed
    );
}

#[test]
fn allocation_overflow_fails_the_claim() {
    let mut c = fresh();
    c.ingest_vaa(50, init_vaa(b"fp-1", b"sale-1", None)).unwrap();
    c.contribute(150, b"sale-1", 0, b"buyer-a", u128::MAX).unwrap();
    c.ingest_vaa(250, seal_vaa(b"fp-2", b"sale-1", u128::MAX, 0))
        .unwrap();
    assert_eq!(
        err_of(c.claim_allocation(b"sale-1", 0, b"buyer-a")),
        ContributorError::ArithmeticOverflow
    );
}

#[test]
fn buyer_status_tracks_claims() {
    let mut c = sealed_two_buyer_sale(1000, 900);
    let before = c.query_buyer_status(b"sale-1", 0, b"buyer-a").unwrap();
    assert!(!before.allocation_claimed);
    assert!(!before.refund_claimed);
    assert!(!before.excess_refund_claimed);
    c.claim_allocation(b"sale-1", 0, b"buyer-a").unwrap();
    c.claim_excess_refund(b"sale-1", 0, b"buyer-a").unwrap();
    let after = c.query_buyer_status(b"sale-1", 0, b"buyer-a").unwrap();
    assert!(after.allocation_claimed);
    assert!(!after.refund_claimed);
    assert!(after.excess_refund_claimed);
    // A buyer who never contributed has every flag unset.
    let stranger = c.query_buyer_status(b"sale-1", 0, b"stranger").unwrap();
    assert!(!stranger.allocation_claimed);
    assert!(!stranger.refund_claimed);
    assert!(!stranger.excess_refund_claimed);
}

#[test]
fn execute_dispatches_contribute_and_claims() {
    let mut c = fresh();
    match c
        .execute(
            50,
            b"host",
            ExecuteMsg::InitSale {
                vaa: init_vaa(b"fp-1", b"sale-1", None),
            },
        )
        .unwrap()
    {
        Effect::Committed => {}
        _ => panic!("initialization moves nothing"),
    }
    match c
        .execute(
            150,
            b"buyer-a",
            ExecuteMsg::Contribute {
                sale_id: b"sale-1".to_vec(),
                token_index: 0,
                amount: 3000,
            },
        )
        .unwrap()
    {
        Effect::PullToEscrow(ins) => {
            assert_eq!(ins.amount, 3000);
            match ins.asset {
                AssetInfo::Token { contract_addr } => {
                    assert_eq!(contract_addr, b"asset-a".to_vec())
                }
                AssetInfo::NativeToken { .. } => panic!("wrong asset kind"),
            }
        }
        _ => panic!("a contribution pulls the asset into escrow"),
    }
    match c
        .execute(
            250,
            b"host",
            ExecuteMsg::SaleSealed {
                vaa: seal_vaa(b"fp-2", b"sale-1", 1000, 0),
            },
        )
        .unwrap()
    {
        Effect::Committed => {}
        _ => panic!("sealing moves nothing"),
    }
    match c
        .execute(
            260,
            b"buyer-a",
            ExecuteMsg::ClaimAllocation {
                sale_id: b"sale-1".to_vec(),
                token_index: 0,
            },
        )
        .unwrap()
    {
        Effect::SendSoldToken(t) => {
            assert_eq!(t.token, b"sold-token".to_vec());
            assert_eq!(t.amount, 1000); // sole contributor takes the whole allocation
        }
        _ => panic!("an allocation claim sends the sold token"),
    }
}

#[test]
fn execute_rejects_vaa_of_wrong_kind() {
    let mut c = fresh();
    assert_eq!(
        err_of(c.execute(
            50,
            b"host",
            ExecuteMsg::InitSale {
                vaa: abort_vaa(b"fp-1", b"sale-1"),
            },
        )),
        ContributorError::UnauthorizedOrMalformedVaa
    );
    // The mismatched message consumed nothing: the fingerprint is still free.
    c.execute(
        50,
        b"host",
        ExecuteMsg::InitSale {
            vaa: init_vaa(b"fp-1", b"sale-1", None),
        },
    )
    .unwrap();
}

#[test]
fn query_dispatches_typed_answers() {
    let mut c = fresh();
    c.ingest_vaa(50, init_vaa(b"fp-1", b"sale-1", Some(1000)))
        .unwrap();
    c.contribute(150, b"sale-1", 0, b"buyer-a", 42).unwrap();
    match c.query(&QueryMsg::Config {}).unwrap() {
        QueryAnswer::ConfigInfo(cfg) => assert_eq!(cfg.conductor_chain, CONDUCTOR_CHAIN),
        _ => panic!("wrong answer kind"),
    }
    match c
        .query(&QueryMsg::SaleStatus {
            sale_id: b"sale-1".to_vec(),
        })
        .unwrap()
    {
        QueryAnswer::SaleStatusInfo(st) => assert_eq!(st, SaleStatus::Active),
        _ => panic!("wrong answer kind"),
    }
    match c
        .query(&QueryMsg::TotalContribution {
            sale_id: b"sale-1".to_vec(),
            token_index: 0,
        })
        .unwrap()
    {
        QueryAnswer::TotalContributionInfo(v) => assert_eq!(v, 42),
        _ => panic!("wrong answer kind"),
    }
    match c
        .query(&QueryMsg::AssetIndex {
            sale_id: b"sale-1".to_vec(),
            asset_info: token_asset(b"asset-a"),
        })
        .unwrap()
    {
        QueryAnswer::AssetIndexInfo(ti) => assert_eq!(ti, 0),
        _ => panic!("wrong answer kind"),
    }
    // A slot has no allocation before the sale is sealed.
    assert_eq!(
        err_of(c.query(&QueryMsg::TotalAllocation {
            sale_id: b"sale-1".to_vec(),
            token_index: 0,
        })),
        ContributorError::SaleNotSealed
    );
}

#[test]
fn execute_dispatches_hook_refund_and_attestation() {
    let mut c = fresh();
    c.ingest_vaa(50, init_vaa(b"fp-1", b"sale-1", None)).unwrap();
    c.contribute(150, b"sale-1", 0, b"buyer-a", 100).unwrap();
    match c
        .execute(
            150,
            b"host",
            ExecuteMsg::EscrowUserContributionHook {
                sale_id: b"sale-1".to_vec(),
                token_index: 0,
                buyer: b"buyer-a".to_vec(),
                actual_amount: 95,
            },
        )
        .unwrap()
    {
        Effect::Committed => {}
        _ => panic!("reconciliation moves nothing"),
    }
    match c
        .execute(
            250,
            b"host",
            ExecuteMsg::AttestContributions {
                sale_id: b"sale-1".to_vec(),
            },
        )
        .unwrap()
    {
        Effect::AttestTotals(v) => assert_eq!(v, vec![95]),
        _ => panic!("attestation reports the totals"),
    }
    c.execute(
        260,
        b"host",
        ExecuteMsg::SaleAborted {
            vaa: abort_vaa(b"fp-2", b"sale-1"),
        },
    )
    .unwrap();
    match c
        .execute(
            270,
            b"buyer-a",
            ExecuteMsg::ClaimRefund {
                sale_id: b"sale-1".to_vec(),
                token_index: 0,
            },
        )
        .unwrap()
    {
        Effect::ReleaseAsset(t) => assert_eq!(t.amount, 95),
        _ => panic!("a refund releases the escrowed asset"),
    }
}
