//! Assembling, hashing and wire-encoding of fee-market transactions.
//!
//! The signature itself is produced by an externally held key; the logic
//! here builds the request, computes the signing hash, determines the
//! recovery parity of the returned signature pair by trial recovery
//! against the known public key, and produces the signed wire encoding.
//! Hashing, point arithmetic and the wire serialization are done by the
//! `ethers-core` crate behind named contracts.
use vstd::prelude::*;
use vstd::slice::slice_subrange;
use ethers_core::types as et;
use ethers_core::k256::elliptic_curve::sec1::ToEncodedPoint;
use crate::fees::FeeEstimates;
use crate::hexutil::{encode_hex_0x, spec_hex_lower};
use crate::state::lex_cmp;

verus! {

/// The signature pair could not be tied to the known public key, or the
/// key itself did not parse.
#[derive(Debug, Clone, Copy, PartialEq, Eq, Structural)]
pub enum SignerError {
    RecoveryFailed,
    InvalidPublicKey,
}

/// A transaction awaiting an external signature. Addresses are raw
/// 20-byte values; amounts and counters are plain integers. The `from`
/// field is carried for callers but takes no part in the wire encoding.
#[derive(Debug, Clone)]
pub struct SignRequest {
    pub chain_id: u64,
    pub to: Option<Vec<u8>>,
    pub from: Option<Vec<u8>>,
    pub gas: u128,
    pub max_fee_per_gas: u128,
    pub max_priority_fee_per_gas: u128,
    pub value: u128,
    pub nonce: u128,
    pub data: Vec<u8>,
}

/// The views of an optional byte string.
pub open spec fn spec_opt_bytes(o: Option<Vec<u8>>) -> Option<Seq<u8>> {
    match o {
        Some(v) => Some(v@),
        None => None,
    }
}

/// A recipient address, if present, is a 20-byte value.
pub open spec fn spec_valid_to(o: Option<Vec<u8>>) -> bool {
    match o {
        Some(v) => v@.len() == 20,
        None => true,
    }
}

pub uninterp spec fn keccak256_of(bytes: Seq<u8>) -> Seq<u8>;

/// Relies on `ethers_core::utils::keccak256`: the digest depends on the
/// input bytes alone and is 32 bytes long.
#[verifier::external_body]
pub fn keccak256(bytes: &[u8]) -> (r: Vec<u8>)
    ensures
        r@ == keccak256_of(bytes@),
        r@.len() == 32,
{
    ethers_core::utils::keccak256(bytes).to_vec()
}

pub uninterp spec fn recovered_key_of(prehash: Seq<u8>, sig: Seq<u8>, parity: u8) -> Option<
    Seq<u8>,
>;

/// Relies on `k256::ecdsa::VerifyingKey::recover_from_prehash` (through
/// `ethers-core`): recovery is a function of the hash, the signature pair
/// and the parity alone; the recovered key is handed back in its
/// compressed encoding, or nothing when parsing or recovery fails.
#[verifier::external_body]
fn try_recover(prehash: &[u8], sig: &[u8], parity: u8) -> (r: Option<Vec<u8>>)
    ensures
        (r is Some) == (recovered_key_of(prehash@, sig@, parity) is Some),
        r is Some ==> r->Some_0@ == recovered_key_of(prehash@, sig@, parity)->Some_0,
{
    let s = ethers_core::k256::ecdsa::Signature::try_from(sig).ok()?;
    let id = ethers_core::k256::ecdsa::RecoveryId::try_from(parity).ok()?;
    let k = ethers_core::k256::ecdsa::VerifyingKey::recover_from_prehash(prehash, &s, id).ok()?;
    Some(k.to_sec1_bytes().to_vec())
}

pub uninterp spec fn compressed_key_of(key: Seq<u8>) -> Option<Seq<u8>>;

/// Relies on `k256::ecdsa::VerifyingKey::from_sec1_bytes` and
/// `to_sec1_bytes`: re-encoding a public key compressed is a function of
/// its bytes alone, and fails exactly when the bytes are no valid key.
#[verifier::external_body]
fn compress_pubkey(key: &[u8]) -> (r: Option<Vec<u8>>)
    ensures
        (r is Some) == (compressed_key_of(key@) is Some),
        r is Some ==> r->Some_0@ == compressed_key_of(key@)->Some_0,
{
    let k = ethers_core::k256::ecdsa::VerifyingKey::from_sec1_bytes(key).ok()?;
    Some(k.to_sec1_bytes().to_vec())
}

pub uninterp spec fn decompressed_key_of(key: Seq<u8>) -> Option<Seq<u8>>;

/// Relies on `k256::PublicKey::from_sec1_bytes` and `to_encoded_point`
/// (through `ethers-core`): the uncompressed point encoding is a function
/// of the key bytes alone; it is 65 bytes long with the uncompressed tag
/// in front, and fails exactly when the bytes are no valid key.
#[verifier::external_body]
fn decompress_pubkey(key: &[u8]) -> (r: Option<Vec<u8>>)
    ensures
        (r is Some) == (decompressed_key_of(key@) is Some),
        r is Some ==> r->Some_0@ == decompressed_key_of(key@)->Some_0
            && r->Some_0@.len() == 65 && r->Some_0@[0] == 4u8,
{
    let k = ethers_core::k256::PublicKey::from_sec1_bytes(key).ok()?;
    Some(k.to_encoded_point(false).as_bytes().to_vec())
}

pub uninterp spec fn checksummed_address_of(addr: Seq<u8>) -> Seq<char>;

/// Relies on `ethers_core::utils::to_checksum` without a chain id: the
/// mixed-case text of a 20-byte address depends on the address alone and
/// is 42 characters, `0x` and two digits per byte.
#[verifier::external_body]
fn checksummed_address(addr: &[u8]) -> (r: String)
    requires
        addr@.len() == 20,
    ensures
        r@ == checksummed_address_of(addr@),
        r@.len() == 42,
{
    ethers_core::utils::to_checksum(&et::Address::from_slice(addr), None)
}

pub uninterp spec fn rlp_unsigned_of(
    chain_id: u64,
    nonce: u128,
    max_priority_fee_per_gas: u128,
    max_fee_per_gas: u128,
    gas: u128,
    to: Option<Seq<u8>>,
    value: u128,
    data: Seq<u8>,
) -> Seq<u8>;

/// Relies on `Eip1559TransactionRequest::rlp` of `ethers-core`: the
/// unsigned wire encoding is a function of the encoded fields alone (the
/// `from` field takes no part in it).
#[verifier::external_body]
fn rlp_encode_unsigned(tx: &SignRequest) -> (r: Vec<u8>)
    requires
        spec_valid_to(tx.to),
    ensures
        r@ == rlp_unsigned_of(
            tx.chain_id,
            tx.nonce,
            tx.max_priority_fee_per_gas,
            tx.max_fee_per_gas,
            tx.gas,
            spec_opt_bytes(tx.to),
            tx.value,
            tx.data@,
        ),
{
    let q = et::Eip1559TransactionRequest {
        chain_id: Some(tx.chain_id.into()),
        nonce: Some(tx.nonce.into()),
        max_priority_fee_per_gas: Some(tx.max_priority_fee_per_gas.into()),
        max_fee_per_gas: Some(tx.max_fee_per_gas.into()),
        gas: Some(tx.gas.into()),
        value: Some(tx.value.into()),
        data: Some(tx.data.clone().into()),
        to: tx.to.as_ref().map(|a| et::NameOrAddress::Address(et::Address::from_slice(a))),
        ..Default::default()
    };
    q.rlp().to_vec()
}

pub uninterp spec fn rlp_signed_of(
    chain_id: u64,
    nonce: u128,
    max_priority_fee_per_gas: u128,
    max_fee_per_gas: u128,
    gas: u128,
    to: Option<Seq<u8>>,
    value: u128,
    data: Seq<u8>,
    v: u64,
    sig_r: Seq<u8>,
    sig_s: Seq<u8>,
) -> Seq<u8>;

/// Relies on `Eip1559TransactionRequest::rlp_signed` of `ethers-core`:
/// the signed wire encoding is a function of the encoded fields and the
/// signature triple alone. The encoder normalizes any parity above one by
/// a subtraction that can underflow, so only the two plain recovery
/// parities are admitted.
#[verifier::external_body]
fn rlp_encode_signed(tx: &SignRequest, v: u64, sig_r: &[u8], sig_s: &[u8]) -> (r: Vec<u8>)
    requires
        spec_valid_to(tx.to),
        v == 0 || v == 1,
        sig_r@.len() == 32,
        sig_s@.len() == 32,
    ensures
        r@ == rlp_signed_of(
            tx.chain_id,
            tx.nonce,
            tx.max_priority_fee_per_gas,
            tx.max_fee_per_gas,
            tx.gas,
            spec_opt_bytes(tx.to),
            tx.value,
            tx.data@,
            v,
            sig_r@,
            sig_s@,
        ),
{
    let q = et::Eip1559TransactionRequest {
        chain_id: Some(tx.chain_id.into()),
        nonce: Some(tx.nonce.into()),
        max_priority_fee_per_gas: Some(tx.max_priority_fee_per_gas.into()),
        max_fee_per_gas: Some(tx.max_fee_per_gas.into()),
        gas: Some(tx.gas.into()),
        value: Some(tx.value.into()),
        data: Some(tx.data.clone().into()),
        to: tx.to.as_ref().map(|a| et::NameOrAddress::Address(et::Address::from_slice(a))),
        ..Default::default()
    };
    let sig = et::Signature { v, r: et::U256::from_big_endian(sig_r), s: et::U256::from_big_endian(sig_s) };
    q.rlp_signed(&sig).to_vec()
}

/// Type marker put in front of a fee-market transaction's encoding.
pub const EIP1559_TX_ID: u8 = 2;

/// The payload whose hash is signed: the type marker followed by the
/// unsigned wire encoding.
pub open spec fn spec_unsigned_payload(tx: &SignRequest) -> Seq<u8> {
    seq![EIP1559_TX_ID] + rlp_unsigned_of(
        tx.chain_id,
        tx.nonce,
        tx.max_priority_fee_per_gas,
        tx.max_fee_per_gas,
        tx.gas,
        spec_opt_bytes(tx.to),
        tx.value,
        tx.data@,
    )
}

/// Builds the payload whose hash is signed.
pub fn unsigned_tx_payload(tx: &SignRequest) -> (r: Vec<u8>)
    requires
        spec_valid_to(tx.to),
    ensures
        r@ == spec_unsigned_payload(tx),
{
    let mut bytes = rlp_encode_unsigned(tx);
    bytes.insert(0, EIP1559_TX_ID);
    proof {
        assert(bytes@ =~= spec_unsigned_payload(tx));
    }
    bytes
}

/// The 32-byte hash the external signer is asked to sign.
pub open spec fn spec_signing_hash(tx: &SignRequest) -> Seq<u8> {
    keccak256_of(spec_unsigned_payload(tx))
}

/// Computes the hash the external signer is asked to sign.
pub fn tx_signing_hash(tx: &SignRequest) -> (r: Vec<u8>)
    requires
        spec_valid_to(tx.to),
    ensures
        r@ == spec_signing_hash(tx),
        r@.len() == 32,
{
    let payload = unsigned_tx_payload(tx);
    keccak256(payload.as_slice())
}

/// Trial recovery with `parity` reproduces the known public key.
pub open spec fn spec_parity_matches(
    prehash: Seq<u8>,
    sig: Seq<u8>,
    parity: u8,
    pubkey: Seq<u8>,
) -> bool {
    &&& recovered_key_of(prehash, sig, parity) is Some
    &&& compressed_key_of(pubkey) is Some
    &&& recovered_key_of(prehash, sig, parity)->0 == compressed_key_of(pubkey)->0
}

/// Determines the recovery parity of a signature pair by trial recovery:
/// of the two candidates, the one that reproduces the known public key.
/// Fails exactly when neither candidate does.
pub fn y_parity(prehash: &[u8], sig: &[u8], pubkey: &[u8]) -> (r: Result<u64, SignerError>)
    ensures
        r matches Ok(v) ==> v == 0 || v == 1,
        spec_parity_matches(prehash@, sig@, 0, pubkey@) ==> r == Ok::<u64, SignerError>(0u64),
        !spec_parity_matches(prehash@, sig@, 0, pubkey@) && spec_parity_matches(
            prehash@,
            sig@,
            1,
            pubkey@,
        ) ==> r == Ok::<u64, SignerError>(1u64),
        !spec_parity_matches(prehash@, sig@, 0, pubkey@) && !spec_parity_matches(
            prehash@,
            sig@,
            1,
            pubkey@,
        ) ==> r == Err::<u64, SignerError>(SignerError::RecoveryFailed),
{
    let expected = match compress_pubkey(pubkey) {
        Some(k) => k,
        None => {
            return Err(SignerError::RecoveryFailed);
        },
    };
    match try_recover(prehash, sig, 0) {
        Some(k) => {
            if lex_cmp(k.as_slice(), expected.as_slice()) == 0 {
                return Ok(0);
            }
        },
        None => {},
    }
    match try_recover(prehash, sig, 1) {
        Some(k) => {
            if lex_cmp(k.as_slice(), expected.as_slice()) == 0 {
                return Ok(1);
            }
        },
        None => {},
    }
    Err(SignerError::RecoveryFailed)
}

/// The signed wire encoding's bytes: the type marker followed by the
/// signed encoding with recovery parity `v`.
pub open spec fn spec_signed_payload(tx: &SignRequest, v: u64, sig: Seq<u8>) -> Seq<u8> {
    seq![EIP1559_TX_ID] + rlp_signed_of(
        tx.chain_id,
        tx.nonce,
        tx.max_priority_fee_per_gas,
        tx.max_fee_per_gas,
        tx.gas,
        spec_opt_bytes(tx.to),
        tx.value,
        tx.data@,
        v,
        sig.subrange(0, 32),
        sig.subrange(32, 64),
    )
}

/// Finishes a transaction whose hash the external signer has signed:
/// determines the recovery parity of the returned pair against the known
/// public key, and hands back the signed wire encoding as `0x`-prefixed
/// hexadecimal text. Fails exactly when neither parity candidate
/// reproduces the public key.
pub fn encode_signed_tx(tx: &SignRequest, sig: &[u8], pubkey: &[u8]) -> (r: Result<
    String,
    SignerError,
>)
    requires
        spec_valid_to(tx.to),
        sig@.len() == 64,
    ensures
        r is Err <==> !spec_parity_matches(spec_signing_hash(tx), sig@, 0, pubkey@)
            && !spec_parity_matches(spec_signing_hash(tx), sig@, 1, pubkey@),
        r is Err ==> r->Err_0 == SignerError::RecoveryFailed,
        r matches Ok(text) ==> exists|v: u64|
            (v == 0 || v == 1) && spec_parity_matches(spec_signing_hash(tx), sig@, v as u8, pubkey@)
                && #[trigger] text@ == seq!['0', 'x'] + spec_hex_lower(
                spec_signed_payload(tx, v, sig@),
            ),
{
    let txhash = tx_signing_hash(tx);
    let v = match y_parity(txhash.as_slice(), sig, pubkey) {
        Ok(v) => v,
        Err(e) => {
            return Err(e);
        },
    };
    proof {
        assert(v == 0 || v == 1);
    }
    let sig_r = slice_subrange(sig, 0, 32);
    let sig_s = slice_subrange(sig, 32, 64);
    let mut signed = rlp_encode_signed(tx, v, sig_r, sig_s);
    signed.insert(0, EIP1559_TX_ID);
    proof {
        assert(signed@ =~= spec_signed_payload(tx, v, sig@));
    }
    let text = encode_hex_0x(&signed);
    proof {
        assert(v == 0 || v == 1);
        assert((v as u8 == 0 && v == 0) || (v as u8 == 1 && v == 1));
    }
    Ok(text)
}

/// The checksummed textual address of a public key: the checksum text of
/// the last 20 bytes of the hash of the key's uncompressed point.
pub open spec fn spec_address_of_pubkey(pubkey: Seq<u8>) -> Seq<char> {
    checksummed_address_of(
        keccak256_of(decompressed_key_of(pubkey)->0.subrange(1, 65)).subrange(12, 32),
    )
}

/// Converts a public key to its checksummed textual address: the key is
/// re-encoded as an uncompressed point, the point's body is hashed, and
/// the hash's last 20 bytes are rendered with the checksum casing. Fails
/// exactly when the bytes are no valid public key.
pub fn pubkey_bytes_to_address(pubkey_bytes: &[u8]) -> (r: Result<String, SignerError>)
    ensures
        r is Err <==> decompressed_key_of(pubkey_bytes@) is None,
        r is Err ==> r->Err_0 == SignerError::InvalidPublicKey,
        r matches Ok(text) ==> text@ == spec_address_of_pubkey(pubkey_bytes@),
{
    let point = match decompress_pubkey(pubkey_bytes) {
        Some(p) => p,
        None => {
            return Err(SignerError::InvalidPublicKey);
        },
    };
    let body = slice_subrange(point.as_slice(), 1, 65);
    let hash = keccak256(body);
    let addr = slice_subrange(hash.as_slice(), 12, 32);
    Ok(checksummed_address(addr))
}

/// Assembles a transaction request from its parts: the recipient, amount,
/// gas limit, call data, account nonce, chain and the estimated fees are
/// taken over field for field.
pub fn create_sign_request(
    value: u128,
    to: Option<Vec<u8>>,
    from: Option<Vec<u8>>,
    gas: u128,
    data: Option<Vec<u8>>,
    nonce: u128,
    chain_id: u64,
    fees: FeeEstimates,
) -> (r: SignRequest)
    ensures
        r.chain_id == chain_id,
        r.to == to,
        r.from == from,
        r.gas == gas,
        r.max_fee_per_gas == fees.max_fee_per_gas,
        r.max_priority_fee_per_gas == fees.max_priority_fee_per_gas,
        r.value == value,
        r.nonce == nonce,
        data matches Some(d) ==> r.data == d,
        data is None ==> r.data@ == Seq::<u8>::empty(),
{
    let data_bytes = match data {
        Some(d) => d,
        None => Vec::new(),
    };
    proof {
        assert(data is None ==> data_bytes@ =~= Seq::<u8>::empty());
    }
    SignRequest {
        chain_id,
        to,
        from,
        gas,
        max_fee_per_gas: fees.max_fee_per_gas,
        max_priority_fee_per_gas: fees.max_priority_fee_per_gas,
        value,
        nonce,
        data: data_bytes,
    }
}

} // verus!
