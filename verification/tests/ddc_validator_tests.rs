use ddc_validator::chain::{ensure_signed, same_account, AccountId, DispatchError, Origin};
use ddc_validator::ddc_validator::{
    get_bytes_received_query_url, get_bytes_sent_query_url, record_verdict, BytesReceived,
    BytesSent, Call, Decision, DeliveryAction, OffchainRun, Pallet, RedisFtAggregate,
    ValidationMethodKind, WorkerAction, WorkerError, DDC_VALIDATORS_QUORUM_SIZE,
};
use ddc_validator::era::{ERA_DURATION_MS, TIME_START_MS};
use ddc_validator::randomness::Randomness;

fn account(n: u8) -> AccountId {
    [n; 32]
}

/// Randomness that echoes the draw number found in the subject, shifted so
/// that successive draws pick successive validators.
struct EchoSeed;

impl Randomness for EchoSeed {
    fn random(subject: &[u8]) -> [u8; 32] {
        let mut out = [0u8; 32];
        out[..4].copy_from_slice(&subject[13..17]);
        out
    }
}

/// Randomness that always gives 4.
struct Four;

impl Randomness for Four {
    fn random(_subject: &[u8]) -> [u8; 32] {
        let mut out = [0u8; 32];
        out[0] = 4;
        out
    }
}

fn era_start(era: u64) -> u64 {
    TIME_START_MS + era * ERA_DURATION_MS
}

fn aggregate(sum: &str) -> RedisFtAggregate {
    RedisFtAggregate {
        ft_aggregate: (
            1,
            vec!["nodePublicKey".to_string(), "0x1".to_string(), "era".to_string(), "3".to_string(), "sum".to_string(), sum.to_string()],
            Vec::new(),
        ),
    }
}

#[test]
fn ensure_signed_accepts_only_signed() {
    assert_eq!(ensure_signed(Origin::Signed(account(1))), Ok(account(1)));
    assert_eq!(ensure_signed(Origin::Root), Err(DispatchError::BadOrigin));
    assert_eq!(ensure_signed(Origin::Unsigned), Err(DispatchError::BadOrigin));
}

#[test]
fn same_account_compares_all_bytes() {
    let a = account(1);
    let mut b = account(1);
    assert!(same_account(&a, &b));
    b[31] = 2;
    assert!(!same_account(&a, &b));
}

#[test]
fn genesis_is_empty() {
    let p = Pallet::new();
    assert_eq!(p.last_managed_era(), None);
    assert!(p.validation_results().is_empty());
    assert_eq!(p.tasks(&account(1)), None);
}

#[test]
fn on_initialize_assigns_a_quorum_to_each_edge() {
    let mut p = Pallet::new();
    let validators = vec![account(10), account(11), account(12), account(13)];
    let edges = vec![account(1), account(2)];
    let weight = p.on_initialize::<Four>(era_start(3), &validators, &edges);
    assert_eq!(weight, 0);
    assert_eq!(p.last_managed_era(), Some(3));
    for edge in &edges {
        let ds = p.tasks(edge).unwrap();
        assert_eq!(ds.len(), DDC_VALIDATORS_QUORUM_SIZE);
        for d in ds {
            assert_eq!(d.decision, None);
            assert_eq!(d.method, ValidationMethodKind::ProofOfDelivery);
            assert_eq!(d.validator, account(10));
        }
    }
    assert_eq!(p.tasks(&account(3)), None);
}

#[test]
fn on_initialize_picks_by_draw() {
    let mut p = Pallet::new();
    let validators = vec![account(10), account(11), account(12)];
    let edges = vec![account(1)];
    p.on_initialize::<Four>(era_start(1), &validators, &edges);
    // Every draw is 4, and 4 % 3 == 1.
    let ds = p.tasks(&account(1)).unwrap();
    assert!(ds.iter().all(|d| d.validator == account(11)));
    let mut q = Pallet::new();
    q.on_initialize::<EchoSeed>(era_start(1), &validators, &edges);
    // The first draw (seed 0) is always accepted: index 0.
    assert!(q.tasks(&account(1)).unwrap().iter().all(|d| d.validator == account(10)));
}

#[test]
fn on_initialize_runs_once_per_era() {
    let mut p = Pallet::new();
    let validators = vec![account(10), account(11)];
    p.on_initialize::<Four>(era_start(5), &validators, &vec![account(1)]);
    // Later in the same era, and in an earlier era: nothing changes.
    p.on_initialize::<Four>(era_start(5) + 1000, &validators, &vec![account(2)]);
    p.on_initialize::<Four>(era_start(4), &validators, &vec![account(2)]);
    assert_eq!(p.last_managed_era(), Some(5));
    assert_eq!(p.tasks(&account(2)), None);
    // The next era assigns again.
    p.on_initialize::<Four>(era_start(6), &validators, &vec![account(2)]);
    assert_eq!(p.last_managed_era(), Some(6));
    assert_eq!(p.tasks(&account(2)).unwrap().len(), 3);
    assert_eq!(p.tasks(&account(1)).unwrap().len(), 3);
}

#[test]
fn on_initialize_with_no_edges_only_marks_the_era() {
    let mut p = Pallet::new();
    p.on_initialize::<Four>(era_start(2), &Vec::new(), &Vec::new());
    assert_eq!(p.last_managed_era(), Some(2));
    assert_eq!(p.fetch_tasks(&account(10)), Vec::<AccountId>::new());
}

#[test]
fn fetch_tasks_lists_assigned_edges_in_order() {
    let mut p = Pallet::new();
    p.on_initialize::<Four>(era_start(1), &vec![account(10), account(11), account(12)], &vec![account(1), account(2)]);
    p.on_initialize::<Four>(era_start(2), &vec![account(20)], &vec![account(3)]);
    assert_eq!(p.fetch_tasks(&account(11)), vec![account(1), account(2)]);
    assert_eq!(p.fetch_tasks(&account(20)), vec![account(3)]);
    assert_eq!(p.fetch_tasks(&account(10)), Vec::<AccountId>::new());
}

#[test]
fn reassigning_an_edge_replaces_its_decisions() {
    let mut p = Pallet::new();
    p.on_initialize::<Four>(era_start(1), &vec![account(10), account(11)], &vec![account(1)]);
    p.on_initialize::<Four>(era_start(2), &vec![account(20)], &vec![account(1)]);
    assert!(p.tasks(&account(1)).unwrap().iter().all(|d| d.validator == account(20)));
    assert_eq!(p.fetch_tasks(&account(10)), Vec::<AccountId>::new());
    assert_eq!(p.fetch_tasks(&account(20)), vec![account(1)]);
}

#[test]
fn record_verdict_marks_only_the_signer() {
    let mut ds = vec![
        Decision { decision: None, method: ValidationMethodKind::ProofOfDelivery, validator: account(1) },
        Decision { decision: None, method: ValidationMethodKind::ProofOfDelivery, validator: account(2) },
        Decision { decision: Some(false), method: ValidationMethodKind::ProofOfDelivery, validator: account(1) },
    ];
    record_verdict(&mut ds, &account(1), true);
    assert_eq!(ds[0].decision, Some(true));
    assert_eq!(ds[1].decision, None);
    assert_eq!(ds[2].decision, Some(true));
    let once = ds.clone();
    record_verdict(&mut ds, &account(1), true);
    assert_eq!(ds, once);
}

#[test]
fn proof_of_delivery_needs_a_signed_origin() {
    let p = Pallet::new();
    assert!(matches!(p.proof_of_delivery(Origin::Root, 1), Err(DispatchError::BadOrigin)));
    assert!(matches!(p.proof_of_delivery(Origin::Unsigned, 1), Err(DispatchError::BadOrigin)));
}

#[test]
fn proof_of_delivery_round_judges_each_assigned_edge() {
    let mut p = Pallet::new();
    p.on_initialize::<Four>(era_start(1), &vec![account(10), account(11)], &vec![account(1), account(2)]);
    let mut round = p.proof_of_delivery(Origin::Signed(account(10)), 7).unwrap();
    let mut judged = Vec::new();
    loop {
        match round.next_action() {
            DeliveryAction::FetchData { era, cdn_node } => {
                assert_eq!(era, 7);
                let sent = BytesSent::new(aggregate("100"));
                let received = BytesReceived::new(aggregate(if cdn_node == account(1) { "100" } else { "99" }));
                let updated = round.record(&sent, &received);
                judged.push((cdn_node, updated));
            }
            DeliveryAction::Finished => break,
        }
    }
    assert_eq!(judged.len(), 2);
    assert_eq!(judged[0].0, account(1));
    assert!(judged[0].1.iter().all(|d| d.decision == Some(true)));
    assert_eq!(judged[1].0, account(2));
    assert!(judged[1].1.iter().all(|d| d.decision == Some(false)));
    // Storage is unchanged by the round.
    assert!(p.tasks(&account(1)).unwrap().iter().all(|d| d.decision.is_none()));
}

#[test]
fn proof_of_delivery_round_without_tasks_finishes_at_once() {
    let p = Pallet::new();
    let round = p.proof_of_delivery(Origin::Signed(account(10)), 7).unwrap();
    assert!(matches!(round.next_action(), DeliveryAction::Finished));
}

#[test]
fn save_validated_data_appends_signed_verdicts() {
    let mut p = Pallet::new();
    assert_eq!(p.save_validated_data(Origin::Signed(account(5)), true, "0xkey".to_string(), "12".to_string()), Ok(()));
    assert_eq!(p.save_validated_data(Origin::Signed(account(6)), false, "0xother".to_string(), "13".to_string()), Ok(()));
    let results = p.validation_results();
    assert_eq!(results.len(), 2);
    assert_eq!(results[0].signer, account(5));
    assert!(results[0].val_res);
    assert_eq!(results[0].cdn_node_pub_key, "0xkey");
    assert_eq!(results[0].era, "12");
    assert_eq!(results[1].signer, account(6));
    assert!(!results[1].val_res);
}

#[test]
fn save_validated_data_refuses_unsigned() {
    let mut p = Pallet::new();
    assert_eq!(p.save_validated_data(Origin::Unsigned, true, "k".to_string(), "1".to_string()), Err(DispatchError::BadOrigin));
    assert_eq!(p.save_validated_data(Origin::Root, true, "k".to_string(), "1".to_string()), Err(DispatchError::BadOrigin));
    assert!(p.validation_results().is_empty());
}

#[test]
fn node_query_urls_name_the_node() {
    assert_eq!(
        get_bytes_sent_query_url(5, "5GrwvaEF"),
        "http://localhost:7379/FT.AGGREGATE/ddc:dac:searchCommonIndex/@era:[5%205]/GROUPBY/2/5GrwvaEF/@era/REDUCE/SUM/1/@bytesSent/AS/bytesSentSum"
    );
    assert_eq!(
        get_bytes_received_query_url(5, "5GrwvaEF"),
        "http://localhost:7379/FT.AGGREGATE/ddc:dac:searchCommonIndex/@era:[5%205]/GROUPBY/2/5GrwvaEF/@era/REDUCE/SUM/1/@bytesReceived/AS/bytesReceivedSum"
    );
}

#[test]
fn worker_skips_other_blocks() {
    let (_, action) = OffchainRun::offchain_worker_main(21);
    assert!(matches!(action, WorkerAction::Stop { result: Ok(()) }));
}

#[test]
fn worker_without_signer_stops_quietly() {
    let (mut run, action) = OffchainRun::offchain_worker_main(40);
    assert!(matches!(action, WorkerAction::LookUpSigner));
    assert!(matches!(run.on_signer(false), WorkerAction::Stop { result: Ok(()) }));
}

#[test]
fn worker_asks_proof_of_delivery_for_previous_era() {
    let (mut run, _) = OffchainRun::offchain_worker_main(20);
    assert!(matches!(run.on_signer(true), WorkerAction::ReadClock));
    match run.on_clock(era_start(9) + 5) {
        WorkerAction::Submit { call: Call::ProofOfDelivery { era } } => assert_eq!(era, 8),
        _ => panic!("expected a proof of delivery call"),
    }
    assert!(matches!(run.on_submitted(Some(Ok(()))), WorkerAction::Stop { result: Ok(()) }));
}

#[test]
fn worker_reports_failed_submission() {
    for outcome in [None, Some(Err(()))] {
        let (mut run, _) = OffchainRun::offchain_worker_main(0);
        run.on_signer(true);
        run.on_clock(era_start(1));
        match run.on_submitted(outcome) {
            WorkerAction::Stop { result: Err(e) } => {
                assert_eq!(e, WorkerError::SubmissionFailed);
                assert_eq!(e.message(), "Error while submitting proof of delivery TX");
            }
            _ => panic!("expected a failure"),
        }
    }
}
