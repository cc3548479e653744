use icco_contributor::errors::ContributorError;
use icco_contributor::state::Contributor;
use icco_contributor::types::{AssetInfo, SaleStatus, SaleTimes};
use icco_contributor::vaa::{
    AcceptedAsset, SaleAborted, SaleInit, SaleSealed, SlotSealed, VaaBody, VerifiedVaa,
};

const OWN_CHAIN: u16 = 3;
const CONDUCTOR_CHAIN: u16 = 2;

fn fresh() -> Contributor {
    Contributor::instantiate(
        OWN_CHAIN,
        b"bridge".to_vec(),
        b"token-bridge".to_vec(),
        CONDUCTOR_CHAIN,
        b"conductor".to_vec(),
        b"owner".to_vec(),
    )
    .unwrap_or_else(|_| panic!("instantiation must succeed"))
}

fn token_asset(name: &[u8]) -> AssetInfo {
    AssetInfo::Token {
        contract_addr: name.to_vec(),
    }
}

fn init_vaa(fingerprint: &[u8], sale_id: &[u8], slots: Vec<AcceptedAsset>) -> VerifiedVaa {
    VerifiedVaa {
        emitter_chain: CONDUCTOR_CHAIN,
        emitter_address: b"conductor".to_vec(),
        fingerprint: fingerprint.to_vec(),
        body: VaaBody::Init(SaleInit {
            sale_id: sale_id.to_vec(),
            token: b"sold-token".to_vec(),
            conductor_chain: CONDUCTOR_CHAIN,
            times: SaleTimes {
                start: 100,
                end: 200,
                unlock: 300,
            },
            accepted: slots,
        }),
    }
}

fn seal_vaa(fingerprint: &[u8], sale_id: &[u8], allocations: Vec<SlotSealed>) -> VerifiedVaa {
    VerifiedVaa {
        emitter_chain: CONDUCTOR_CHAIN,
        emitter_address: b"conductor".to_vec(),
        fingerprint: fingerprint.to_vec(),
        body: VaaBody::Sealed(SaleSealed {
            sale_id: sale_id.to_vec(),
            allocations,
        }),
    }
}

fn abort_vaa(fingerprint: &[u8], sale_id: &[u8]) -> VerifiedVaa {
    VerifiedVaa {
        emitter_chain: CONDUCTOR_CHAIN,
        emitter_address: b"conductor".to_vec(),
        fingerprint: fingerprint.to_vec(),
        body: VaaBody::Aborted(SaleAborted {
            sale_id: sale_id.to_vec(),
        }),
    }
}

fn one_slot(cap: Option<u128>) -> Vec<AcceptedAsset> {
    vec![AcceptedAsset {
        asset: token_asset(b"asset-a"),
        decimals: 6,
        cap,
    }]
}

fn err_of<T>(r: Result<T, ContributorError>) -> ContributorError {
    match r {
        Err(e) => e,
        Ok(_) => panic!("expected an error"),
    }
}

#[test]
fn instantiate_rejects_own_chain_as_conductor() {
    let r = Contributor::instantiate(
        OWN_CHAIN,
        b"bridge".to_vec(),
        b"token-bridge".to_vec(),
        OWN_CHAIN,
        b"conductor".to_vec(),
        b"owner".to_vec(),
    );
    assert_eq!(err_of(r), ContributorError::UnsupportedConductor);
}

#[test]
fn init_sale_creates_active_sale() {
    let mut c = fresh();
    c.ingest_vaa(50, init_vaa(b"fp-1", b"sale-1", one_slot(Some(1000))))
        .unwrap();
    assert_eq!(c.query_sale_status(b"sale-1").unwrap(), SaleStatus::Active);
    let times = c.query_sale_times(b"sale-1").unwrap();
    assert_eq!(times.start, 100);
    assert_eq!(times.end, 200);
    assert_eq!(times.unlock, 300);
    assert_eq!(c.query_total_contribution(b"sale-1", 0).unwrap(), 0);
    match c.query_accepted_asset(b"sale-1", 0).unwrap() {
        AssetInfo::Token { contract_addr } => assert_eq!(contract_addr, &b"asset-a".to_vec()),
        AssetInfo::NativeToken { .. } => panic!("wrong asset kind"),
    }
    assert_eq!(
        c.query_asset_index(b"sale-1", &token_asset(b"asset-a"))
            .unwrap(),
        0
    );
    assert_eq!(
        err_of(c.query_asset_index(b"sale-1", &token_asset(b"asset-z"))),
        ContributorError::InvalidAssetSlot
    );
}

#[test]
fn unknown_sale_queries_fail() {
    let c = fresh();
    assert_eq!(
        err_of(c.query_sale_status(b"nope")),
        ContributorError::UnknownSale
    );
    assert_eq!(
        err_of(c.query_total_contribution(b"nope", 0)),
        ContributorError::UnknownSale
    );
}

#[test]
fn init_rejects_wrong_origin() {
    let mut c = fresh();
    let mut vaa = init_vaa(b"fp-1", b"sale-1", one_slot(None));
    vaa.emitter_chain = 9;
    assert_eq!(
        err_of(c.ingest_vaa(50, vaa)),
        ContributorError::UnauthorizedOrMalformedVaa
    );
    let mut vaa2 = init_vaa(b"fp-1", b"sale-1", one_slot(None));
    vaa2.emitter_address = b"impostor".to_vec();
    assert_eq!(
        err_of(c.ingest_vaa(50, vaa2)),
        ContributorError::UnauthorizedOrMalformedVaa
    );
}

#[test]
fn init_rejects_payload_conductor_mismatch() {
    let mut c = fresh();
    let mut vaa = init_vaa(b"fp-1", b"sale-1", one_slot(None));
    if let VaaBody::Init(ref mut init) = vaa.body {
        init.conductor_chain = 7;
    }
    assert_eq!(
        err_of(c.ingest_vaa(50, vaa)),
        ContributorError::UnsupportedConductor
    );
}

#[test]
fn consumed_fingerprint_rejected_regardless_of_payload() {
    let mut c = fresh();
    c.ingest_vaa(50, init_vaa(b"fp-1", b"sale-1", one_slot(None)))
        .unwrap();
    // Same fingerprint, entirely different payload: still rejected.
    assert_eq!(
        err_of(c.ingest_vaa(250, abort_vaa(b"fp-1", b"sale-1"))),
        ContributorError::VaaAlreadyConsumed
    );
    // And the same message again, of course.
    assert_eq!(
        err_of(c.ingest_vaa(50, init_vaa(b"fp-1", b"sale-2", one_slot(None)))),
        ContributorError::VaaAlreadyConsumed
    );
}

#[test]
fn duplicate_sale_rejected() {
    let mut c = fresh();
    c.ingest_vaa(50, init_vaa(b"fp-1", b"sale-1", one_slot(None)))
        .unwrap();
    assert_eq!(
        err_of(c.ingest_vaa(50, init_vaa(b"fp-2", b"sale-1", one_slot(None)))),
        ContributorError::DuplicateSale
    );
}

#[test]
fn contribution_window_is_closed_interval() {
    let mut c = fresh();
    c.ingest_vaa(50, init_vaa(b"fp-1", b"sale-1", one_slot(None)))
        .unwrap();
    assert_eq!(
        err_of(c.contribute(99, b"sale-1", 0, b"buyer-a", 10)),
        ContributorError::OutsideContributionWindow
    );
    assert_eq!(
        err_of(c.contribute(201, b"sale-1", 0, b"buyer-a", 10)),
        ContributorError::OutsideContributionWindow
    );
    c.contribute(100, b"sale-1", 0, b"buyer-a", 10).unwrap();
    c.contribute(200, b"sale-1", 0, b"buyer-a", 10).unwrap();
    assert_eq!(c.query_total_contribution(b"sale-1", 0).unwrap(), 20);
}

#[test]
fn contribute_rejects_bad_inputs() {
    let mut c = fresh();
    c.ingest_vaa(50, init_vaa(b"fp-1", b"sale-1", one_slot(None)))
        .unwrap();
    assert_eq!(
        err_of(c.contribute(150, b"no-sale", 0, b"buyer-a", 10)),
        ContributorError::SaleNotActive
    );
    assert_eq!(
        err_of(c.contribute(150, b"sale-1", 1, b"buyer-a", 10)),
        ContributorError::InvalidAssetSlot
    );
    assert_eq!(
        err_of(c.contribute(150, b"sale-1", 0, b"buyer-a", 0)),
        ContributorError::ZeroAmount
    );
}

#[test]
fn cap_reached_exactly_then_exceeded() {
    let mut c = fresh();
    c.ingest_vaa(50, init_vaa(b"fp-1", b"sale-1", one_slot(Some(1000))))
        .unwrap();
    let pull = c.contribute(150, b"sale-1", 0, b"buyer-a", 600).unwrap();
    assert_eq!(pull.amount, 600);
    c.contribute(150, b"sale-1", 0, b"buyer-b", 400).unwrap();
    assert_eq!(c.query_total_contribution(b"sale-1", 0).unwrap(), 1000);
    assert_eq!(
        err_of(c.contribute(150, b"sale-1", 0, b"buyer-c", 1)),
        ContributorError::ContributionExceedsCap
    );
}

#[test]
fn uncapped_total_overflow_fails_atomically() {
    let mut c = fresh();
    c.ingest_vaa(50, init_vaa(b"fp-1", b"sale-1", one_slot(None)))
        .unwrap();
    c.contribute(150, b"sale-1", 0, b"buyer-a", u128::MAX)
        .unwrap();
    assert_eq!(
        err_of(c.contribute(150, b"sale-1", 0, b"buyer-b", 1)),
        ContributorError::ArithmeticOverflow
    );
    assert_eq!(c.query_total_contribution(b"sale-1", 0).unwrap(), u128::MAX);
}

#[test]
fn reconciliation_settles_fee_on_transfer_shortfall() {
    let mut c = fresh();
    c.ingest_vaa(50, init_vaa(b"fp-1", b"sale-1", one_slot(None)))
        .unwrap();
    c.contribute(150, b"sale-1", 0, b"buyer-a", 100).unwrap();
    assert_eq!(c.query_total_contribution(b"sale-1", 0).unwrap(), 100);
    // The escrow reports only 97 arrived: a 3-unit transfer fee.
    c.escrow_user_contribution_hook(b"sale-1", 0, b"buyer-a", 97)
        .unwrap();
    assert_eq!(c.query_total_contribution(b"sale-1", 0).unwrap(), 97);
    assert_eq!(
        err_of(c.escrow_user_contribution_hook(b"sale-1", 0, b"buyer-a", 97)),
        ContributorError::ContributionAlreadyReconciled
    );
}

#[test]
fn reconciliation_with_full_delivery_changes_nothing() {
    let mut c = fresh();
    c.ingest_vaa(50, init_vaa(b"fp-1", b"sale-1", one_slot(None)))
        .unwrap();
    c.contribute(150, b"sale-1", 0, b"buyer-a", 100).unwrap();
    c.escrow_user_contribution_hook(b"sale-1", 0, b"buyer-a", 100)
        .unwrap();
    assert_eq!(c.query_total_contribution(b"sale-1", 0).unwrap(), 100);
}

#[test]
fn reconciliation_without_pending_contribution_fails() {
    let mut c = fresh();
    c.ingest_vaa(50, init_vaa(b"fp-1", b"sale-1", one_slot(None)))
        .unwrap();
    assert_eq!(
        err_of(c.escrow_user_contribution_hook(b"sale-1", 0, b"buyer-a", 50)),
        ContributorError::ContributionAlreadyReconciled
    );
}

#[test]
fn seal_waits_for_window_end() {
    let mut c = fresh();
    c.ingest_vaa(50, init_vaa(b"fp-1", b"sale-1", one_slot(None)))
        .unwrap();
    assert_eq!(
        err_of(c.ingest_vaa(
            150,
            seal_vaa(
                b"fp-2",
                b"sale-1",
                vec![SlotSealed {
                    allocation: 1000,
                    excess: 0
                }]
            )
        )),
        ContributorError::SaleNotYetEnded
    );
}

#[test]
fn seal_requires_terms_for_every_slot() {
    let mut c = fresh();
    c.ingest_vaa(50, init_vaa(b"fp-1", b"sale-1", one_slot(None)))
        .unwrap();
    assert_eq!(
        err_of(c.ingest_vaa(250, seal_vaa(b"fp-2", b"sale-1", vec![]))),
        ContributorError::UnauthorizedOrMalformedVaa
    );
}

#[test]
fn status_transitions_are_terminal() {
    let mut c = fresh();
    c.ingest_vaa(50, init_vaa(b"fp-1", b"sale-1", one_slot(None)))
        .unwrap();
    c.ingest_vaa(
        250,
        seal_vaa(
            b"fp-2",
            b"sale-1",
            vec![SlotSealed {
                allocation: 1000,
                excess: 0,
            }],
        ),
    )
    .unwrap();
    assert_eq!(c.query_sale_status(b"sale-1").unwrap(), SaleStatus::Sealed);
    // A sealed sale can be neither aborted nor sealed again.
    assert_eq!(
        err_of(c.ingest_vaa(260, abort_vaa(b"fp-3", b"sale-1"))),
        ContributorError::SaleNotActive
    );
    assert_eq!(
        err_of(c.ingest_vaa(
            260,
            seal_vaa(
                b"fp-4",
                b"sale-1",
                vec![SlotSealed {
                    allocation: 1000,
                    excess: 0
                }]
            )
        )),
        ContributorError::SaleNotActive
    );
    assert_eq!(c.query_sale_status(b"sale-1").unwrap(), SaleStatus::Sealed);

    // And an aborted sale stays aborted.
    let mut d = fresh();
    d.ingest_vaa(50, init_vaa(b"fp-1", b"sale-2", one_slot(None)))
        .unwrap();
    d.ingest_vaa(250, abort_vaa(b"fp-2", b"sale-2")).unwrap();
    assert_eq!(d.query_sale_status(b"sale-2").unwrap(), SaleStatus::Aborted);
    assert_eq!(
        err_of(d.ingest_vaa(
            260,
            seal_vaa(
                b"fp-3",
                b"sale-2",
                vec![SlotSealed {
                    allocation: 1,
                    excess: 0
                }]
            )
        )),
        ContributorError::SaleNotActive
    );
    assert_eq!(d.query_sale_status(b"sale-2").unwrap(), SaleStatus::Aborted);
}

#[test]
fn sales_are_independent() {
    let mut c = fresh();
    c.ingest_vaa(50, init_vaa(b"fp-1", b"sale-1", one_slot(None)))
        .unwrap();
    c.ingest_vaa(50, init_vaa(b"fp-2", b"sale-2", one_slot(None)))
        .unwrap();
    c.contribute(150, b"sale-1", 0, b"buyer-a", 77).unwrap();
    c.ingest_vaa(250, abort_vaa(b"fp-3", b"sale-2")).unwrap();
    // Work on either sale leaves the other untouched.
    assert_eq!(c.query_sale_status(b"sale-1").unwrap(), SaleStatus::Active);
    assert_eq!(c.query_sale_status(b"sale-2").unwrap(), SaleStatus::Aborted);
    assert_eq!(c.query_total_contribution(b"sale-1", 0).unwrap(), 77);
    assert_eq!(c.query_total_contribution(b"sale-2", 0).unwrap(), 0);
}

#[test]
fn abort_of_unknown_sale_fails() {
    let mut c = fresh();
    assert_eq!(
        err_of(c.ingest_vaa(250, abort_vaa(b"fp-1", b"sale-1"))),
        ContributorError::UnknownSale
    );
}

#[test]
fn contributions_frozen_once_sale_leaves_active() {
    let mut c = fresh();
    c.ingest_vaa(50, init_vaa(b"fp-1", b"sale-1", one_slot(None)))
        .unwrap();
    c.contribute(150, b"sale-1", 0, b"buyer-a", 100).unwrap();
    c.ingest_vaa(250, abort_vaa(b"fp-2", b"sale-1")).unwrap();
    assert_eq!(
        err_of(c.contribute(150, b"sale-1", 0, b"buyer-a", 10)),
        ContributorError::SaleNotActive
    );
    assert_eq!(
        err_of(c.escrow_user_contribution_hook(b"sale-1", 0, b"buyer-a", 100)),
        ContributorError::SaleNotActive
    );
}

#[test]
fn instantiate_records_configuration() {
    let c = fresh();
    let cfg = c.query_config();
    assert_eq!(cfg.chain_id, OWN_CHAIN);
    assert_eq!(cfg.conductor_chain, CONDUCTOR_CHAIN);
    assert_eq!(cfg.bridge, b"bridge".to_vec());
    assert_eq!(cfg.token_bridge, b"token-bridge".to_vec());
    assert_eq!(cfg.conductor_address, b"conductor".to_vec());
    assert_eq!(cfg.owner, b"owner".to_vec());
}

#[test]
fn init_rejects_oversized_slot_list() {
    let mut c = fresh();
    let mut slots = Vec::new();
    for i in 0..257u32 {
        slots.push(AcceptedAsset {
            asset: AssetInfo::Token {
                contract_addr: i.to_be_bytes().to_vec(),
            },
            decimals: 6,
            cap: None,
        });
    }
    assert_eq!(
        err_of(c.ingest_vaa(50, init_vaa(b"fp-1", b"sale-1", slots))),
        ContributorError::UnauthorizedOrMalformedVaa
    );
}

#[test]
fn query_sale_returns_full_record() {
    let mut c = fresh();
    c.ingest_vaa(50, init_vaa(b"fp-1", b"sale-1", one_slot(Some(1000))))
        .unwrap();
    let sale = c.query_sale(b"sale-1").unwrap();
    assert_eq!(sale.id, b"sale-1".to_vec());
    assert_eq!(sale.token, b"sold-token".to_vec());
    assert_eq!(sale.status, SaleStatus::Active);
    assert_eq!(sale.slots.len(), 1);
    assert_eq!(sale.slots[0].cap, Some(1000));
    assert_eq!(sale.slots[0].decimals, 6);
    assert_eq!(
        err_of(c.query_sale(b"sale-2")),
        ContributorError::UnknownSale
    );
}

#[test]
fn attest_contributions_reports_totals_after_end() {
    let mut c = fresh();
    let slots = vec![
        AcceptedAsset {
            asset: token_asset(b"asset-a"),
            decimals: 6,
            cap: None,
        },
        AcceptedAsset {
            asset: token_asset(b"asset-b"),
            decimals: 8,
            cap: None,
        },
    ];
    c.ingest_vaa(50, init_vaa(b"fp-1", b"sale-1", slots)).unwrap();
    c.contribute(150, b"sale-1", 0, b"buyer-a", 11).unwrap();
    c.contribute(150, b"sale-1", 1, b"buyer-a", 22).unwrap();
    assert_eq!(
        err_of(c.attest_contributions(200, b"sale-1")),
        ContributorError::SaleNotYetEnded
    );
    let totals = c.attest_contributions(201, b"sale-1").unwrap();
    assert_eq!(totals, vec![11, 22]);
}
