use boundless_proving::batch::{assemble_batch, TaskOutcome};
use boundless_proving::fulfill::{FulfillAction, FulfillPhase, FulfillSession};
use boundless_proving::orders::{
    check_signature, ClassifiedOrder, FetchedOrder, FulfillError, HintField, OrderFailure,
};
use boundless_proving::request_id::RequestId;

fn id(n: u128) -> RequestId {
    RequestId::from_halves(7, n)
}

fn ids(ns: &[u128]) -> Vec<RequestId> {
    ns.iter().map(|n| id(*n)).collect()
}

fn sig(n: u128) -> Vec<u8> {
    vec![n as u8, 0xAA, n as u8]
}

fn task(index: usize, n: u128, locked: bool) -> TaskOutcome {
    let order = check_signature(index, FetchedOrder { request_id: id(n), signature: sig(n) }, true)?;
    Ok(ClassifiedOrder { order, locked })
}

fn started(ns: &[u128]) -> FulfillSession {
    let (session, action) = FulfillSession::start(ids(ns), &None, &None);
    assert!(matches!(action, FulfillAction::FetchOrders(_)));
    session
}

#[test]
fn orders_keep_input_order() {
    let request_ids = ids(&[5, 3, 9, 1]);
    let outcomes = vec![task(0, 5, false), task(1, 3, true), task(2, 9, false), task(3, 1, false)];
    let batch = assemble_batch(&request_ids, &outcomes).unwrap();
    assert_eq!(batch.request_ids, request_ids);
    assert_eq!(batch.signatures, vec![sig(5), sig(3), sig(9), sig(1)]);
    assert_eq!(batch.locked, vec![false, true, false, false]);
}

#[test]
fn locked_requests_are_not_priced() {
    let request_ids = ids(&[1, 2, 3, 4, 5]);
    let outcomes = vec![
        task(0, 1, true),
        task(1, 2, false),
        task(2, 3, true),
        task(3, 4, false),
        task(4, 5, false),
    ];
    let batch = assemble_batch(&request_ids, &outcomes).unwrap();
    assert_eq!(batch.priced, vec![1, 3, 4]);
    assert_eq!(batch.priced_signatures(), vec![sig(2), sig(4), sig(5)]);
}

#[test]
fn all_locked_prices_nothing() {
    let request_ids = ids(&[1, 2]);
    let outcomes = vec![task(0, 1, true), task(1, 2, true)];
    let batch = assemble_batch(&request_ids, &outcomes).unwrap();
    assert!(batch.priced.is_empty());
    assert_eq!(batch.request_ids.len(), 2);
}

#[test]
fn digest_count_mismatch_fails_before_fetching() {
    let digests = Some(vec![[1u8; 32], [2u8; 32]]);
    let (session, action) = FulfillSession::start(ids(&[1, 2, 3]), &digests, &None);
    assert_eq!(session.phase(), FulfillPhase::Failed);
    match action {
        FulfillAction::Abort(e) => assert_eq!(
            e,
            FulfillError::LengthMismatch {
                field: HintField::RequestDigests,
                request_ids: 3,
                found: 2
            }
        ),
        other => panic!("expected an abort, got {:?}", other),
    }
}

#[test]
fn tx_hash_count_mismatch_fails_before_fetching() {
    let digests = Some(vec![[1u8; 32], [2u8; 32]]);
    let hashes = Some(vec![[3u8; 32]]);
    let (session, action) = FulfillSession::start(ids(&[1, 2]), &digests, &hashes);
    assert_eq!(session.phase(), FulfillPhase::Failed);
    assert!(matches!(
        action,
        FulfillAction::Abort(FulfillError::LengthMismatch {
            field: HintField::TxHashes,
            request_ids: 2,
            found: 1
        })
    ));
}

#[test]
fn lookups_carry_their_hints() {
    let digests = Some(vec![[1u8; 32], [2u8; 32]]);
    let hashes = Some(vec![[3u8; 32], [4u8; 32]]);
    let (_, action) = FulfillSession::start(ids(&[10, 20]), &digests, &hashes);
    match action {
        FulfillAction::FetchOrders(lookups) => {
            assert_eq!(lookups.len(), 2);
            assert_eq!(lookups[1].request_id, id(20));
            assert_eq!(lookups[1].request_digest, Some([2u8; 32]));
            assert_eq!(lookups[0].tx_hash, Some([3u8; 32]));
        }
        other => panic!("expected lookups, got {:?}", other),
    }
}

#[test]
fn invalid_signature_aborts_whole_batch() {
    let mut session = started(&[1, 2, 3]);
    let bad = check_signature(1, FetchedOrder { request_id: id(2), signature: sig(2) }, false)
        .map(|order| ClassifiedOrder { order, locked: false });
    let action = session.on_orders(vec![task(0, 1, false), bad, task(2, 3, false)]);
    assert!(matches!(action, FulfillAction::Abort(FulfillError::InvalidSignature { index: 1 })));
    assert_eq!(session.phase(), FulfillPhase::Failed);
    assert!(session.batch().is_none());
}

#[test]
fn first_failure_by_position_is_reported() {
    let mut session = started(&[1, 2, 3]);
    let action = session.on_orders(vec![
        task(0, 1, false),
        Err(FulfillError::Order { index: 1, failure: OrderFailure::NotFound }),
        Err(FulfillError::Order { index: 2, failure: OrderFailure::Rpc }),
    ]);
    assert!(matches!(
        action,
        FulfillAction::Abort(FulfillError::Order { index: 1, failure: OrderFailure::NotFound })
    ));
}

#[test]
fn order_for_another_id_is_malformed() {
    let mut session = started(&[1, 2]);
    let action = session.on_orders(vec![task(0, 1, false), task(1, 99, false)]);
    assert!(matches!(
        action,
        FulfillAction::Abort(FulfillError::Order { index: 1, failure: OrderFailure::Malformed })
    ));
}

#[test]
fn full_batch_runs_both_phases_in_order() {
    let mut session = started(&[1, 2, 3]);
    let action = session.on_orders(vec![task(0, 1, false), task(1, 2, true), task(2, 3, false)]);
    assert!(matches!(action, FulfillAction::Aggregate));
    let action = session.on_aggregated(Some(ids(&[1, 2, 3])));
    assert!(matches!(action, FulfillAction::SubmitRoot));
    assert_eq!(session.phase(), FulfillPhase::CommittingRoot);
    match session.on_root_submitted(true) {
        FulfillAction::PriceAndFulfill { priced, signatures } => {
            assert_eq!(priced, vec![0, 2]);
            assert_eq!(signatures, vec![sig(1), sig(3)]);
        }
        other => panic!("expected price-and-fulfill, got {:?}", other),
    }
    assert!(matches!(session.on_fulfilled(true), FulfillAction::Finish));
    assert_eq!(session.phase(), FulfillPhase::Done);
}

#[test]
fn misaligned_fills_abort() {
    let mut session = started(&[1, 2]);
    session.on_orders(vec![task(0, 1, false), task(1, 2, false)]);
    let action = session.on_aggregated(Some(ids(&[2, 1])));
    assert!(matches!(action, FulfillAction::Abort(FulfillError::Aggregation)));
    assert_eq!(session.phase(), FulfillPhase::Failed);
}

#[test]
fn failed_aggregation_aborts() {
    let mut session = started(&[1]);
    session.on_orders(vec![task(0, 1, false)]);
    assert!(matches!(
        session.on_aggregated(None),
        FulfillAction::Abort(FulfillError::Aggregation)
    ));
}

#[test]
fn failed_root_commit_skips_fulfillment() {
    let mut session = started(&[1]);
    session.on_orders(vec![task(0, 1, false)]);
    session.on_aggregated(Some(ids(&[1])));
    assert!(matches!(
        session.on_root_submitted(false),
        FulfillAction::Abort(FulfillError::RootSubmission)
    ));
    assert_eq!(session.phase(), FulfillPhase::Failed);
}

#[test]
fn failed_fulfillment_is_reported() {
    let mut session = started(&[1]);
    session.on_orders(vec![task(0, 1, false)]);
    session.on_aggregated(Some(ids(&[1])));
    session.on_root_submitted(true);
    assert!(matches!(
        session.on_fulfilled(false),
        FulfillAction::Abort(FulfillError::Fulfillment)
    ));
}

#[test]
fn same_results_give_same_aggregation_input() {
    let run = || {
        let mut session = started(&[4, 8]);
        session.on_orders(vec![task(0, 4, true), task(1, 8, false)]);
        let b = session.batch().unwrap();
        (b.request_ids.clone(), b.signatures.clone(), b.priced.clone())
    };
    assert_eq!(run(), run());
}
