use chain_fusion::events::{
    decode_mint_event, decode_new_job_event, job_schedule_decision, process_new_job,
    EventDecodeError, JobDecision,
};
use chain_fusion::fees::{
    classify_fee_history_reply, estimate_fees, median_index, sort_fees, FeeEstimates,
    FeeHistoryError, FeeHistoryResult, MIN_SUGGEST_MAX_PRIORITY_FEE_PER_GAS,
};
use chain_fusion::lifecycle::InitArg;
use chain_fusion::rpc_types::{
    BlockTag, ConsensusReply, FeeHistory, JsonRpcError, LogEntry, RpcError, RpcServices,
};
use chain_fusion::state::{EcdsaCurve, EcdsaKeyId, LogSource, State};

fn fresh_state() -> State {
    let arg = InitArg {
        rpc_services: RpcServices::Custom { chain_id: 31337, services: vec![] },
        get_logs_address: vec!["0x5fbdb2315678afecb367f032d93f642f64180aa3".to_string()],
        get_logs_topics: None,
        last_scraped_block_number: 0,
        ecdsa_key_id: EcdsaKeyId { curve: EcdsaCurve::Secp256k1, name: "key_1".to_string() },
        block_tag: BlockTag::Latest,
    };
    State::try_from(arg).unwrap()
}

fn word_of(value: u64) -> Vec<u8> {
    let mut w = vec![0_u8; 24];
    w.extend_from_slice(&value.to_be_bytes());
    w
}

#[test]
fn median_index_values() {
    assert_eq!(median_index(1), 0);
    assert_eq!(median_index(2), 0);
    assert_eq!(median_index(9), 4);
    assert_eq!(median_index(10), 4);
}

#[test]
fn sorting_fees() {
    assert_eq!(sort_fees(vec![5, 1, 9, 2, 8, 3, 7, 4, 6]), vec![1, 2, 3, 4, 5, 6, 7, 8, 9]);
    assert_eq!(sort_fees(vec![]), Vec::<u128>::new());
    assert_eq!(sort_fees(vec![3, 3, 1]), vec![1, 3, 3]);
}

#[test]
fn fee_estimate_with_clamp() {
    // base fee of the last block 100; rewards [5,1,9,2,8,3,7,4,6] sort to
    // [1..9] with median 5; the suggested maximum is clamped up to the
    // minimum because 5 + 100 is below it.
    let history = FeeHistory {
        reward: vec![
            vec![5],
            vec![1],
            vec![9],
            vec![2],
            vec![8],
            vec![3],
            vec![7],
            vec![4],
            vec![6],
        ],
        oldest_block: 1,
        base_fee_per_gas: vec![100],
    };
    let est = estimate_fees(9, &history);
    assert_eq!(est.max_priority_fee_per_gas, 5);
    assert_eq!(est.max_fee_per_gas, 1_500_000_000);
    assert_eq!(est.max_fee_per_gas, MIN_SUGGEST_MAX_PRIORITY_FEE_PER_GAS);
}

#[test]
fn fee_estimate_above_clamp() {
    let history = FeeHistory {
        reward: vec![vec![2_000_000_000], vec![1_000_000_000], vec![3_000_000_000]],
        oldest_block: 10,
        base_fee_per_gas: vec![50, 40_000_000_000],
    };
    let est = estimate_fees(3, &history);
    assert_eq!(est.max_priority_fee_per_gas, 2_000_000_000);
    assert_eq!(est.max_fee_per_gas, 42_000_000_000);
}

#[test]
fn fee_estimate_short_window_defaults_to_zero() {
    // a young chain: fewer samples than the median index needs
    let history = FeeHistory { reward: vec![], oldest_block: 0, base_fee_per_gas: vec![100] };
    let est = estimate_fees(9, &history);
    assert_eq!(est.max_priority_fee_per_gas, 0);
    assert_eq!(est.max_fee_per_gas, MIN_SUGGEST_MAX_PRIORITY_FEE_PER_GAS);
    assert_eq!(
        est,
        FeeEstimates {
            max_fee_per_gas: MIN_SUGGEST_MAX_PRIORITY_FEE_PER_GAS,
            max_priority_fee_per_gas: 0,
        }
    );
}

#[test]
fn fee_history_reply_classification() {
    let history = FeeHistory { reward: vec![vec![7]], oldest_block: 3, base_fee_per_gas: vec![9] };
    let ok = classify_fee_history_reply(ConsensusReply::Consistent(FeeHistoryResult::History(
        Some(history),
    )));
    let got = ok.unwrap();
    assert_eq!(got.base_fee_per_gas, vec![9]);
    assert_eq!(got.reward, vec![vec![7]]);

    let missing = classify_fee_history_reply(ConsensusReply::Consistent(
        FeeHistoryResult::History(None),
    ));
    assert!(matches!(missing, Err(FeeHistoryError::Missing)));

    let err = classify_fee_history_reply(ConsensusReply::Consistent(FeeHistoryResult::Error(
        RpcError::JsonRpcError(JsonRpcError { code: -1, message: "boom".to_string() }),
    )));
    assert!(matches!(err, Err(FeeHistoryError::Rpc(_))));

    let split = classify_fee_history_reply(ConsensusReply::Inconsistent(vec![]));
    assert!(matches!(split, Err(FeeHistoryError::InconsistentResponse)));
}

fn job_entry(job_id_byte: u8, execution_time: u64) -> LogEntry {
    LogEntry {
        transaction_hash: Some(vec![0xaa; 32]),
        block_number: Some(12),
        data: word_of(execution_time),
        block_hash: None,
        transaction_index: Some(0),
        topics: vec![vec![0x11; 32], vec![job_id_byte; 32]],
        address: vec![0; 20],
        log_index: Some(0),
        removed: false,
    }
}

#[test]
fn decoding_a_job_event() {
    let e = job_entry(0x42, 1_700_000_000);
    let ev = decode_new_job_event(&e).unwrap();
    assert_eq!(ev.job_id, vec![0x42; 32]);
    assert_eq!(ev.job_execution_time, 1_700_000_000);
}

#[test]
fn job_event_decode_errors() {
    let mut e = job_entry(0x42, 5);
    e.topics = vec![vec![0x11; 32]];
    assert!(matches!(decode_new_job_event(&e), Err(EventDecodeError::MissingTopics)));

    let mut e = job_entry(0x42, 5);
    e.data = vec![0xff; 9];
    assert!(matches!(decode_new_job_event(&e), Err(EventDecodeError::ValueOutOfRange)));
}

#[test]
fn decoding_a_mint_event() {
    let mut topic1 = vec![0_u8; 12];
    topic1.extend_from_slice(&[0x01; 20]);
    let mut topic2 = vec![0_u8; 12];
    topic2.extend_from_slice(&[0x02; 20]);
    let e = LogEntry {
        transaction_hash: Some(vec![0xbb; 32]),
        block_number: Some(12),
        data: vec![],
        block_hash: None,
        transaction_index: Some(0),
        topics: vec![vec![0x11; 32], topic1, topic2, vec![0x99; 32]],
        address: vec![0; 20],
        log_index: Some(1),
        removed: false,
    };
    let ev = decode_mint_event(&e).unwrap();
    assert_eq!(ev.from_address, vec![0x01; 20]);
    assert_eq!(ev.to_address, vec![0x02; 20]);
    assert_eq!(ev.token_id, vec![0x99; 32]);

    let mut short = e.clone();
    short.topics.pop();
    assert!(decode_mint_event(&short).is_err());
}

#[test]
fn schedule_decision_boundaries() {
    assert_eq!(job_schedule_decision(100, 100), JobDecision::RunNow);
    assert_eq!(job_schedule_decision(99, 100), JobDecision::RunNow);
    assert_eq!(job_schedule_decision(101, 100), JobDecision::Defer { delay: 1 });
    assert_eq!(job_schedule_decision(400, 100), JobDecision::Defer { delay: 300 });
}

#[test]
fn processing_a_pending_job() {
    let mut s = fresh_state();
    let e = job_entry(0x42, 500);
    assert!(s.record_log_to_process(e.clone()).is_ok());
    let source = LogSource { transaction_hash: vec![0xaa; 32], log_index: 0 };

    let (ev, decision) = process_new_job(&mut s, source.clone(), &e, 200).unwrap();
    assert_eq!(ev.job_execution_time, 500);
    assert_eq!(decision, JobDecision::Defer { delay: 300 });
    assert_eq!(s.logs_to_process.len(), 0);
    assert_eq!(s.processed_logs.len(), 1);

    // the event was dequeued exactly once: a second pass finds nothing
    assert!(process_new_job(&mut s, source, &e, 200).is_err());
}
