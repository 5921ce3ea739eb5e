use chain_fusion::fees::FeeEstimates;
use chain_fusion::lifecycle::InitArg;
use chain_fusion::rpc_types::{
    is_response_too_large, BlockTag, ConsensusReply, HttpOutcallError, JsonRpcError, RejectionCode,
    RpcError, RpcServices, SendRawTransactionStatus,
};
use chain_fusion::state::{EcdsaCurve, EcdsaKeyId, State};
use chain_fusion::submitter::{
    apply_send_status, build_callback_data, build_execute_job_data, classify_send_reply,
    function_selector, reconcile_nonce, resolve_transaction_count, transaction_count_step,
    transfer_request, CountDecision, GetTransactionCountResult, SendRawTransactionResult,
    SubmitError, COUNT_RETRY_LIMIT,
};
use ethers_core::abi::AbiEncode;
use ethers_core::types::U256;

fn fresh_state() -> State {
    let arg = InitArg {
        rpc_services: RpcServices::EthSepolia(None),
        get_logs_address: vec!["0x5fbdb2315678afecb367f032d93f642f64180aa3".to_string()],
        get_logs_topics: None,
        last_scraped_block_number: 0,
        ecdsa_key_id: EcdsaKeyId { curve: EcdsaCurve::Secp256k1, name: "key_1".to_string() },
        block_tag: BlockTag::Latest,
    };
    State::try_from(arg).unwrap()
}

fn rpc_error() -> RpcError {
    RpcError::JsonRpcError(JsonRpcError { code: -32000, message: "boom".to_string() })
}

#[test]
fn selector_is_the_hash_prefix() {
    let sel = function_selector("executeJob(uint256)");
    let expected = ethers_core::utils::keccak256(b"executeJob(uint256)")[0..4].to_vec();
    assert_eq!(sel, expected);
    assert_eq!(sel.len(), 4);
}

#[test]
fn callback_payload_matches_the_standard_encoding() {
    let mut word = [0_u8; 32];
    U256::from(66).to_big_endian(&mut word);
    let data = build_callback_data("hello", &word);

    let mut expected = ethers_core::utils::keccak256(b"callback(string,uint256)")[0..4].to_vec();
    expected.extend(("hello".to_string(), U256::from(66)).encode());
    assert_eq!(data, expected);
}

#[test]
fn callback_payload_with_empty_and_word_sized_text() {
    let mut word = [0_u8; 32];
    U256::from(1).to_big_endian(&mut word);

    let data = build_callback_data("", &word);
    let mut expected = ethers_core::utils::keccak256(b"callback(string,uint256)")[0..4].to_vec();
    expected.extend(("".to_string(), U256::from(1)).encode());
    assert_eq!(data, expected);

    let text = "abcdefghijklmnopqrstuvwxyz012345";
    let data = build_callback_data(text, &word);
    let mut expected = ethers_core::utils::keccak256(b"callback(string,uint256)")[0..4].to_vec();
    expected.extend((text.to_string(), U256::from(1)).encode());
    assert_eq!(data, expected);
}

#[test]
fn execute_job_payload_matches_the_standard_encoding() {
    let mut word = [0_u8; 32];
    U256::from(1234).to_big_endian(&mut word);
    let data = build_execute_job_data(&word);

    let mut expected = ethers_core::utils::keccak256(b"executeJob(uint256)")[0..4].to_vec();
    expected.extend(U256::from(1234).encode());
    assert_eq!(data, expected);
}

#[test]
fn nonce_advances_only_on_success() {
    let mut s = fresh_state();
    s.nonce = 41;
    assert!(apply_send_status(&mut s, &SendRawTransactionStatus::Accepted(None)));
    assert_eq!(s.nonce, 42);
    assert!(apply_send_status(&mut s, &SendRawTransactionStatus::AlreadyKnown));
    assert_eq!(s.nonce, 43);
    assert!(!apply_send_status(&mut s, &SendRawTransactionStatus::NonceTooLow));
    assert_eq!(s.nonce, 43);
    assert!(!apply_send_status(&mut s, &SendRawTransactionStatus::NonceTooHigh));
    assert_eq!(s.nonce, 43);
    assert!(!apply_send_status(&mut s, &SendRawTransactionStatus::InsufficientFunds));
    assert_eq!(s.nonce, 43);
}

#[test]
fn nonce_reconciliation_from_the_network_count() {
    let mut s = fresh_state();
    s.nonce = 10;
    assert!(reconcile_nonce(&mut s, 11));
    assert_eq!(s.nonce, 11);
    assert!(!reconcile_nonce(&mut s, 11));
    assert_eq!(s.nonce, 11);
    assert!(!reconcile_nonce(&mut s, 3));
    assert_eq!(s.nonce, 11);
}

#[test]
fn send_reply_classification() {
    let ok = classify_send_reply(ConsensusReply::Consistent(SendRawTransactionResult::Status(
        SendRawTransactionStatus::NonceTooLow,
    )));
    assert!(matches!(ok, Ok(SendRawTransactionStatus::NonceTooLow)));

    let err = classify_send_reply(ConsensusReply::Consistent(SendRawTransactionResult::Error(
        rpc_error(),
    )));
    assert!(matches!(err, Err(SubmitError::Rpc(_))));

    let err = classify_send_reply(ConsensusReply::Inconsistent(vec![]));
    assert!(matches!(err, Err(SubmitError::InconsistentResponse)));
}

#[test]
fn transfer_request_defaults() {
    let fees = FeeEstimates { max_fee_per_gas: 7, max_priority_fee_per_gas: 3 };
    let req = transfer_request(5_000, vec![0x44; 20], None, 12, 1, fees);
    assert_eq!(req.gas, 21000);
    assert_eq!(req.value, 5_000);
    assert_eq!(req.to, Some(vec![0x44; 20]));
    assert!(req.data.is_empty());
    let req = transfer_request(5_000, vec![0x44; 20], Some(90_000), 12, 1, fees);
    assert_eq!(req.gas, 90_000);
}

#[test]
fn count_read_retries_inconsistency_three_times() {
    assert_eq!(COUNT_RETRY_LIMIT, 3);
    assert_eq!(
        transaction_count_step(0, &ConsensusReply::Consistent(GetTransactionCountResult::Count(8))),
        CountDecision::Accept(8)
    );
    assert_eq!(
        transaction_count_step(
            0,
            &ConsensusReply::Consistent(GetTransactionCountResult::Error(rpc_error()))
        ),
        CountDecision::Fail
    );
    assert_eq!(transaction_count_step(2, &ConsensusReply::Inconsistent(vec![])), CountDecision::Retry);
    assert_eq!(transaction_count_step(3, &ConsensusReply::Inconsistent(vec![])), CountDecision::Fail);

    let mut replies = vec![
        ConsensusReply::Inconsistent(vec![]),
        ConsensusReply::Inconsistent(vec![]),
        ConsensusReply::Consistent(GetTransactionCountResult::Count(5)),
    ];
    assert_eq!(resolve_transaction_count(&mut replies), Some(5));

    let mut replies = vec![
        ConsensusReply::<GetTransactionCountResult>::Inconsistent(vec![]),
        ConsensusReply::Inconsistent(vec![]),
        ConsensusReply::Inconsistent(vec![]),
        ConsensusReply::Inconsistent(vec![]),
        ConsensusReply::Consistent(GetTransactionCountResult::Count(5)),
    ];
    assert_eq!(resolve_transaction_count(&mut replies), None);

    let mut empty: Vec<ConsensusReply<GetTransactionCountResult>> = Vec::new();
    assert_eq!(resolve_transaction_count(&mut empty), None);
}

#[test]
fn response_size_classification() {
    assert!(is_response_too_large(
        &RejectionCode::SysFatal,
        "http request failed: size limit exceeded"
    ));
    assert!(!is_response_too_large(&RejectionCode::SysFatal, "no route to host"));
    assert!(!is_response_too_large(&RejectionCode::SysTransient, "size limit exceeded"));

    let e = RpcError::HttpOutcallError(HttpOutcallError::IcError {
        code: RejectionCode::SysFatal,
        message: "over the size limit".to_string(),
    });
    assert!(e.is_response_too_large());
    let e = RpcError::JsonRpcError(JsonRpcError { code: 1, message: "size limit".to_string() });
    assert!(!e.is_response_too_large());
}

#[test]
fn chain_id_of_each_provider_set() {
    assert_eq!(RpcServices::EthMainnet(None).chain_id(), 1);
    assert_eq!(RpcServices::EthSepolia(None).chain_id(), 11155111);
    assert_eq!(RpcServices::Custom { chain_id: 31337, services: vec![] }.chain_id(), 31337);
}
