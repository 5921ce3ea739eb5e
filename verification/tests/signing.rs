use chain_fusion::fees::FeeEstimates;
use chain_fusion::signer::{
    create_sign_request, encode_signed_tx, keccak256, pubkey_bytes_to_address, tx_signing_hash,
    unsigned_tx_payload, y_parity, SignRequest, SignerError,
};
use ethers_core::k256::ecdsa::{RecoveryId, Signature, SigningKey, VerifyingKey};
use ethers_core::k256::elliptic_curve::sec1::ToEncodedPoint;
use ethers_core::types::{Address, Eip1559TransactionRequest, NameOrAddress, U256};

fn test_key() -> SigningKey {
    SigningKey::from_slice(&[7_u8; 32]).unwrap()
}

fn fees() -> FeeEstimates {
    FeeEstimates { max_fee_per_gas: 1_500_000_000, max_priority_fee_per_gas: 5 }
}

fn sample_request() -> SignRequest {
    create_sign_request(
        1_000_000,
        Some(vec![0x33; 20]),
        None,
        21000,
        Some(vec![0xab, 0xcd]),
        9,
        11155111,
        fees(),
    )
}

fn ethers_equivalent() -> Eip1559TransactionRequest {
    Eip1559TransactionRequest {
        from: None,
        to: Some(NameOrAddress::Address(Address::from_slice(&[0x33; 20]))),
        gas: Some(U256::from(21000)),
        value: Some(U256::from(1_000_000)),
        data: Some(vec![0xab_u8, 0xcd].into()),
        nonce: Some(U256::from(9)),
        access_list: Default::default(),
        max_priority_fee_per_gas: Some(U256::from(5)),
        max_fee_per_gas: Some(U256::from(1_500_000_000_u64)),
        chain_id: Some(11155111.into()),
    }
}

#[test]
fn keccak_digest_is_not_the_input() {
    let digest = keccak256(b"executeJob(uint256)");
    assert_eq!(digest.len(), 32);
    assert_ne!(&digest[..], b"executeJob(uint256)".as_slice());
    assert_eq!(digest, ethers_core::utils::keccak256(b"executeJob(uint256)").to_vec());
}

#[test]
fn request_fields_are_taken_over() {
    let req = sample_request();
    assert_eq!(req.chain_id, 11155111);
    assert_eq!(req.to, Some(vec![0x33; 20]));
    assert_eq!(req.gas, 21000);
    assert_eq!(req.max_fee_per_gas, 1_500_000_000);
    assert_eq!(req.max_priority_fee_per_gas, 5);
    assert_eq!(req.value, 1_000_000);
    assert_eq!(req.nonce, 9);
    assert_eq!(req.data, vec![0xab, 0xcd]);
}

#[test]
fn unsigned_payload_matches_the_wire_encoding() {
    let req = sample_request();
    let payload = unsigned_tx_payload(&req);
    let mut expected = ethers_equivalent().rlp().to_vec();
    expected.insert(0, 2);
    assert_eq!(payload, expected);

    let hash = tx_signing_hash(&req);
    assert_eq!(hash, ethers_core::utils::keccak256(&expected).to_vec());
}

#[test]
fn parity_recovery_picks_exactly_one_candidate() {
    let sk = test_key();
    let vk = VerifyingKey::from(&sk);
    let prehash = ethers_core::utils::keccak256(b"a signed message");
    let (sig, recid) = sk.sign_prehash_recoverable(&prehash).unwrap();
    let sig_bytes = sig.to_bytes().to_vec();
    let pubkey = vk.to_sec1_bytes().to_vec();

    // the true parity recovers the known key
    let v = y_parity(&prehash, &sig_bytes, &pubkey).unwrap();
    assert_eq!(v, recid.to_byte() as u64);

    // the other candidate must not reproduce it
    let other = RecoveryId::try_from(1 - recid.to_byte()).unwrap();
    let parsed = Signature::try_from(sig_bytes.as_slice()).unwrap();
    match VerifyingKey::recover_from_prehash(&prehash, &parsed, other) {
        Ok(other_key) => assert_ne!(other_key, vk),
        Err(_) => {},
    }
}

#[test]
fn parity_recovery_fails_on_a_foreign_key() {
    let sk = test_key();
    let foreign = SigningKey::from_slice(&[9_u8; 32]).unwrap();
    let prehash = ethers_core::utils::keccak256(b"a signed message");
    let (sig, _) = sk.sign_prehash_recoverable(&prehash).unwrap();
    let sig_bytes = sig.to_bytes().to_vec();
    let foreign_key = VerifyingKey::from(&foreign).to_sec1_bytes().to_vec();
    assert_eq!(
        y_parity(&prehash, &sig_bytes, &foreign_key),
        Err(SignerError::RecoveryFailed)
    );
}

#[test]
fn signed_encoding_matches_the_wire_encoding() {
    let sk = test_key();
    let vk = VerifyingKey::from(&sk);
    let req = sample_request();
    let hash = tx_signing_hash(&req);
    let (sig, recid) = sk.sign_prehash_recoverable(&hash).unwrap();
    let sig_bytes = sig.to_bytes().to_vec();
    let pubkey = vk.to_sec1_bytes().to_vec();

    let text = encode_signed_tx(&req, &sig_bytes, &pubkey).unwrap();

    let ethers_sig = ethers_core::types::Signature {
        v: recid.to_byte() as u64,
        r: U256::from_big_endian(&sig_bytes[0..32]),
        s: U256::from_big_endian(&sig_bytes[32..64]),
    };
    let mut expected = ethers_equivalent().rlp_signed(&ethers_sig).to_vec();
    expected.insert(0, 2);
    assert_eq!(text, format!("0x{}", hex::encode(&expected)));
}

#[test]
fn address_of_a_public_key() {
    let sk = test_key();
    let vk = VerifyingKey::from(&sk);
    let compressed = vk.to_sec1_bytes().to_vec();
    let text = pubkey_bytes_to_address(&compressed).unwrap();

    let point = vk.to_encoded_point(false);
    let hash = ethers_core::utils::keccak256(&point.as_bytes()[1..]);
    let expected = ethers_core::utils::to_checksum(&Address::from_slice(&hash[12..32]), None);
    assert_eq!(text, expected);

    assert_eq!(
        pubkey_bytes_to_address(&[0_u8; 33]),
        Err(SignerError::InvalidPublicKey)
    );
}
