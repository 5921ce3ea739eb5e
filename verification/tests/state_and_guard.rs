use chain_fusion::guard::{TaskType, TimerGuard, TimerGuardError};
use chain_fusion::lifecycle::{validate_topic, validate_topics, InitArg, InvalidStateError};
use chain_fusion::rpc_types::{BlockTag, LogEntry, RpcServices};
use chain_fusion::state::{
    contains_u64, lex_cmp, EcdsaCurve, EcdsaKeyId, InvariantViolation, LogSource, State,
};

fn fresh_state() -> State {
    let arg = InitArg {
        rpc_services: RpcServices::EthSepolia(None),
        get_logs_address: vec!["0x5fbdb2315678afecb367f032d93f642f64180aa3".to_string()],
        get_logs_topics: None,
        last_scraped_block_number: 0,
        ecdsa_key_id: EcdsaKeyId { curve: EcdsaCurve::Secp256k1, name: "dfx_test_key".to_string() },
        block_tag: BlockTag::Latest,
    };
    State::try_from(arg).unwrap()
}

fn entry(hash_byte: u8, index: u64) -> LogEntry {
    LogEntry {
        transaction_hash: Some(vec![hash_byte; 32]),
        block_number: Some(1),
        data: vec![],
        block_hash: None,
        transaction_index: Some(0),
        topics: vec![],
        address: vec![0; 20],
        log_index: Some(index),
        removed: false,
    }
}

fn source_of(hash_byte: u8, index: u64) -> LogSource {
    LogSource { transaction_hash: vec![hash_byte; 32], log_index: index }
}

#[test]
fn lexicographic_compare() {
    assert_eq!(lex_cmp(b"abc", b"abd"), -1);
    assert_eq!(lex_cmp(b"abd", b"abc"), 1);
    assert_eq!(lex_cmp(b"abc", b"abc"), 0);
    assert_eq!(lex_cmp(b"ab", b"abc"), -1);
    assert_eq!(lex_cmp(b"abc", b"ab"), 1);
    assert_eq!(lex_cmp(b"", b""), 0);
}

#[test]
fn source_total_order() {
    let a = source_of(1, 0);
    let b = source_of(1, 1);
    let c = source_of(2, 0);
    assert_eq!(a.cmp(&b), -1);
    assert_eq!(b.cmp(&c), -1);
    assert_eq!(a.cmp(&a), 0);
    assert_eq!(c.cmp(&a), 1);
}

#[test]
fn record_and_complete_log_transitions() {
    let mut s = fresh_state();
    let e = entry(9, 3);
    assert!(s.record_log_to_process(e.clone()).is_ok());
    assert!(s.has_logs_to_process());

    // the same identity cannot be recorded twice
    assert_eq!(
        s.record_log_to_process(e.clone()),
        Err(InvariantViolation::DuplicateLogSource)
    );

    // the key moves to the completed map exactly once
    assert!(s.record_processed_log(source_of(9, 3)).is_ok());
    assert!(!s.has_logs_to_process());
    assert_eq!(
        s.record_processed_log(source_of(9, 3)),
        Err(InvariantViolation::UnknownLogSource)
    );

    // and never moves back: a completed identity cannot re-enter pending
    assert_eq!(
        s.record_log_to_process(e),
        Err(InvariantViolation::DuplicateLogSource)
    );
}

#[test]
fn pending_iteration_is_key_order() {
    let mut s = fresh_state();
    assert!(s.record_log_to_process(entry(5, 1)).is_ok());
    assert!(s.record_log_to_process(entry(2, 7)).is_ok());
    assert!(s.record_log_to_process(entry(2, 3)).is_ok());
    assert_eq!(s.logs_to_process.len(), 3);
    let first = s.logs_to_process.entry_at(0).0.clone();
    let second = s.logs_to_process.entry_at(1).0.clone();
    let third = s.logs_to_process.entry_at(2).0.clone();
    assert_eq!(first.transaction_hash, vec![2; 32]);
    assert_eq!(first.log_index, 3);
    assert_eq!(second.log_index, 7);
    assert_eq!(third.transaction_hash, vec![5; 32]);
}

#[test]
fn missing_source_fields_are_rejected() {
    let mut s = fresh_state();
    let mut e = entry(1, 1);
    e.transaction_hash = None;
    assert_eq!(
        s.record_log_to_process(e),
        Err(InvariantViolation::MissingSourceField)
    );
}

#[test]
fn skipped_blocks_only_grow() {
    let mut s = fresh_state();
    assert!(s.record_skipped_block(100).is_ok());
    assert!(contains_u64(&s.skipped_blocks, 100));
    assert_eq!(
        s.record_skipped_block(100),
        Err(InvariantViolation::BlockAlreadySkipped)
    );
    assert!(s.record_skipped_block(101).is_ok());
    assert_eq!(s.skipped_blocks, vec![100, 101]);
}

#[test]
fn guard_excludes_same_tag_only() {
    let mut s = fresh_state();
    let g = TimerGuard::new(&mut s, TaskType::ScrapeLogs).unwrap();
    // a second holder of the same tag is refused while the first is held
    assert_eq!(
        TimerGuard::new(&mut s, TaskType::ScrapeLogs),
        Err(TimerGuardError::AlreadyProcessing)
    );
    // a different tag is independent
    let h = TimerGuard::new(&mut s, TaskType::ProcessLogs).unwrap();
    h.release(&mut s);
    // after release — on any exit path — the tag can be taken again
    g.release(&mut s);
    let g2 = TimerGuard::new(&mut s, TaskType::ScrapeLogs).unwrap();
    g2.release(&mut s);
}

#[test]
fn guard_released_after_faulted_holder() {
    let mut s = fresh_state();
    // a holder that fails mid-way still releases on its error path
    let g = TimerGuard::new(&mut s, TaskType::ExecuteJobs).unwrap();
    let failed: Result<(), ()> = Err(());
    if failed.is_err() {
        g.release(&mut s);
    }
    let g2 = TimerGuard::new(&mut s, TaskType::ExecuteJobs).unwrap();
    g2.release(&mut s);
}

#[test]
fn initial_state_fields() {
    let s = fresh_state();
    assert_eq!(s.last_scraped_block_number, 0);
    assert!(s.last_observed_block_number.is_none());
    assert_eq!(s.nonce, 0);
    assert_eq!(s.logs_to_process.len(), 0);
    assert_eq!(s.processed_logs.len(), 0);
    assert!(s.skipped_blocks.is_empty());
    assert!(s.evm_address.is_none());
    assert!(s.ecdsa_pub_key.is_none());
}

#[test]
fn init_rejects_bad_address() {
    let arg = InitArg {
        rpc_services: RpcServices::EthSepolia(None),
        get_logs_address: vec!["not-an-address".to_string()],
        get_logs_topics: None,
        last_scraped_block_number: 0,
        ecdsa_key_id: EcdsaKeyId { curve: EcdsaCurve::Secp256k1, name: "k".to_string() },
        block_tag: BlockTag::Finalized,
    };
    assert!(State::try_from(arg).is_err());
}

#[test]
fn init_rejects_bad_topic() {
    let arg = InitArg {
        rpc_services: RpcServices::EthSepolia(None),
        get_logs_address: vec!["0x5fbdb2315678afecb367f032d93f642f64180aa3".to_string()],
        get_logs_topics: Some(vec![vec!["0x1234".to_string()]]),
        last_scraped_block_number: 0,
        ecdsa_key_id: EcdsaKeyId { curve: EcdsaCurve::Secp256k1, name: "k".to_string() },
        block_tag: BlockTag::Safe,
    };
    assert!(State::try_from(arg).is_err());
}

#[test]
fn topic_validation() {
    let good = format!("0x{}", "ab".repeat(32));
    assert!(validate_topic(&good));
    assert!(validate_topic(&"cd".repeat(32)));
    assert!(!validate_topic("0x1234"));
    assert!(!validate_topic(&"zz".repeat(32)));
    assert!(validate_topics(&vec![good.clone(), "ef".repeat(32)]).is_ok());
    match validate_topics(&vec![good, "bad".to_string()]) {
        Err(InvalidStateError::InvalidTopic(t)) => assert_eq!(t, "bad"),
        _ => panic!("expected an invalid topic"),
    }
}
