use chain_fusion::guard::{TaskType, TimerGuard};
use chain_fusion::lifecycle::InitArg;
use chain_fusion::rpc_types::{
    BlockTag, ConsensusReply, HttpOutcallError, LogEntry, RejectionCode, RpcError, RpcServices,
};
use chain_fusion::scraper::{
    apply_block_observation, next_scrape_range, run_scan_range, run_scrape_cycle, scan_range_step,
    BlockNumberResult, CycleOutcome, GetLogsResult, ScanOutcome, ScanStep, MAX_BLOCK_SPREAD,
};
use chain_fusion::state::{contains_u64, EcdsaCurve, EcdsaKeyId, State};

fn fresh_state(cursor: u64) -> State {
    let arg = InitArg {
        rpc_services: RpcServices::EthMainnet(None),
        get_logs_address: vec!["0x5fbdb2315678afecb367f032d93f642f64180aa3".to_string()],
        get_logs_topics: None,
        last_scraped_block_number: cursor,
        ecdsa_key_id: EcdsaKeyId { curve: EcdsaCurve::Secp256k1, name: "key_1".to_string() },
        block_tag: BlockTag::Finalized,
    };
    State::try_from(arg).unwrap()
}

fn too_large_error() -> RpcError {
    RpcError::HttpOutcallError(HttpOutcallError::IcError {
        code: RejectionCode::SysFatal,
        message: "response exceeds the size limit of the provider".to_string(),
    })
}

fn hard_error() -> RpcError {
    RpcError::HttpOutcallError(HttpOutcallError::IcError {
        code: RejectionCode::SysTransient,
        message: "connection reset".to_string(),
    })
}

fn log_entry(hash_byte: u8, index: u64) -> LogEntry {
    LogEntry {
        transaction_hash: Some(vec![hash_byte; 32]),
        block_number: Some(7),
        data: vec![],
        block_hash: None,
        transaction_index: Some(0),
        topics: vec![],
        address: vec![0; 20],
        log_index: Some(index),
        removed: false,
    }
}

#[test]
fn bisection_halves_the_failing_range() {
    // range [100, 600] fails as too large: retried as [100, 350]
    let step = scan_range_step(
        100,
        600,
        ConsensusReply::Consistent(GetLogsResult::Error(too_large_error())),
    );
    assert!(matches!(step, ScanStep::Narrow { hi: 350 }));
}

#[test]
fn single_failing_block_is_skipped() {
    let step = scan_range_step(
        100,
        100,
        ConsensusReply::Consistent(GetLogsResult::Error(too_large_error())),
    );
    assert!(matches!(step, ScanStep::Skip { block: 100 }));
}

#[test]
fn agreement_advances_to_the_window_end() {
    let step = scan_range_step(100, 350, ConsensusReply::Consistent(GetLogsResult::Logs(vec![])));
    assert!(matches!(step, ScanStep::Advance { to: 350, .. }));
}

#[test]
fn hard_error_and_disagreement_abort() {
    let step = scan_range_step(
        100,
        350,
        ConsensusReply::Consistent(GetLogsResult::Error(hard_error())),
    );
    assert!(matches!(step, ScanStep::Abort));
    let step = scan_range_step(100, 350, ConsensusReply::Inconsistent(vec![]));
    assert!(matches!(step, ScanStep::Abort));
}

#[test]
fn scan_records_skip_after_bisecting_to_one_block() {
    // [100, 600] too large, then [100, 350], [100, 225], ... down to
    // [100, 100], which still fails: block 100 is recorded skipped and the
    // cursor advances to 100.
    let mut s = fresh_state(99);
    let mut replies = Vec::new();
    for _ in 0..12 {
        replies.push(ConsensusReply::Consistent(GetLogsResult::Error(too_large_error())));
    }
    let outcome = run_scan_range(&mut s, 100, 600, &mut replies);
    assert_eq!(outcome, ScanOutcome::Advanced(100));
    assert_eq!(s.last_scraped_block_number, 100);
    assert!(contains_u64(&s.skipped_blocks, 100));
    assert_eq!(s.skipped_blocks, vec![100]);
}

#[test]
fn scan_success_records_the_entries() {
    let mut s = fresh_state(99);
    let mut replies = vec![ConsensusReply::Consistent(GetLogsResult::Logs(vec![
        log_entry(3, 0),
        log_entry(3, 1),
    ]))];
    let outcome = run_scan_range(&mut s, 100, 420, &mut replies);
    assert_eq!(outcome, ScanOutcome::Advanced(420));
    assert_eq!(s.last_scraped_block_number, 420);
    assert_eq!(s.logs_to_process.len(), 2);
    assert!(s.skipped_blocks.is_empty());
}

#[test]
fn scan_abort_leaves_the_cursor() {
    let mut s = fresh_state(99);
    let mut replies = vec![ConsensusReply::<GetLogsResult>::Inconsistent(vec![])];
    let outcome = run_scan_range(&mut s, 100, 420, &mut replies);
    assert_eq!(outcome, ScanOutcome::Aborted);
    assert_eq!(s.last_scraped_block_number, 99);
    assert_eq!(s.logs_to_process.len(), 0);
}

#[test]
fn scan_out_of_replies_aborts() {
    let mut s = fresh_state(99);
    let mut replies: Vec<ConsensusReply<GetLogsResult>> = Vec::new();
    assert_eq!(run_scan_range(&mut s, 100, 420, &mut replies), ScanOutcome::Aborted);
    assert_eq!(s.last_scraped_block_number, 99);
}

#[test]
fn span_limits_each_range() {
    assert_eq!(MAX_BLOCK_SPREAD, 500);
    assert_eq!(next_scrape_range(1000, 1510), Some((1001, 1500)));
    assert_eq!(next_scrape_range(1500, 1510), Some((1501, 1510)));
    assert_eq!(next_scrape_range(1510, 1510), None);
    assert_eq!(next_scrape_range(1511, 1510), None);
}

#[test]
fn one_cycle_reaches_the_observed_block() {
    // cursor 1000, observed 1510: ranges [1001, 1500] then [1501, 1510],
    // ending with the cursor at 1510.
    let mut s = fresh_state(1000);
    let mut replies = vec![
        ConsensusReply::Consistent(GetLogsResult::Logs(vec![])),
        ConsensusReply::Consistent(GetLogsResult::Logs(vec![])),
    ];
    let outcome = run_scrape_cycle(&mut s, 1510, &mut replies);
    assert_eq!(outcome, CycleOutcome::Completed);
    assert_eq!(s.last_scraped_block_number, 1510);
    assert!(replies.is_empty());
}

#[test]
fn aborted_cycle_keeps_partial_progress() {
    let mut s = fresh_state(1000);
    let mut replies = vec![
        ConsensusReply::Consistent(GetLogsResult::Logs(vec![])),
        ConsensusReply::Consistent(GetLogsResult::Error(hard_error())),
    ];
    let outcome = run_scrape_cycle(&mut s, 1510, &mut replies);
    assert_eq!(outcome, CycleOutcome::Aborted);
    assert_eq!(s.last_scraped_block_number, 1500);
}

#[test]
fn block_observation_updates_on_agreement() {
    let mut s = fresh_state(0);
    let r = apply_block_observation(
        &mut s,
        ConsensusReply::Consistent(BlockNumberResult::Number(1510)),
    );
    assert_eq!(r, Some(1510));
    assert_eq!(s.last_observed_block_number, Some(1510));

    // an agreed error keeps the previous observation
    let r = apply_block_observation(
        &mut s,
        ConsensusReply::Consistent(BlockNumberResult::Error(hard_error())),
    );
    assert_eq!(r, Some(1510));
    assert_eq!(s.last_observed_block_number, Some(1510));

    // disagreement aborts without touching anything
    let r = apply_block_observation(&mut s, ConsensusReply::Inconsistent(vec![]));
    assert_eq!(r, None);
    assert_eq!(s.last_observed_block_number, Some(1510));
}

#[test]
fn guarded_cycle_skips_while_held() {
    let mut s = fresh_state(1000);
    let g = TimerGuard::new(&mut s, TaskType::ScrapeLogs).unwrap();
    assert!(TimerGuard::new(&mut s, TaskType::ScrapeLogs).is_err());
    g.release(&mut s);
    assert!(TimerGuard::new(&mut s, TaskType::ScrapeLogs).is_ok());
}
