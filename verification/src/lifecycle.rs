//! Installation of the relay: validating the static configuration and
//! building the initial state.
//!
//! Watched contract addresses and log topics arrive as hexadecimal text;
//! an address must denote 20 bytes and a topic 32, each optionally
//! `0x`-prefixed. A fresh state starts at the configured cursor with
//! empty log maps, no skipped blocks, no task in flight and a zero nonce.
use vstd::prelude::*;
use vstd::string::StringSliceAdditionalSpecFns;
use crate::guard::TaskSet;
use crate::hexutil::{decode_fixed_hex, spec_is_hex_word};
use crate::rpc_types::{BlockTag, RpcServices};
use crate::state::{EcdsaKeyId, LogMap, State};

verus! {

/// A configuration value that cannot stand: the offending text is carried
/// along.
#[derive(Debug, Clone)]
pub enum InvalidStateError {
    InvalidEthereumContractAddress(String),
    InvalidTopic(String),
}

/// The installation argument: the provider set, the watched addresses and
/// topics, the starting cursor, the signing key and the block-tag policy.
#[derive(Debug, Clone)]
pub struct InitArg {
    pub rpc_services: RpcServices,
    pub get_logs_address: Vec<String>,
    pub get_logs_topics: Option<Vec<Vec<String>>>,
    pub last_scraped_block_number: u64,
    pub ecdsa_key_id: EcdsaKeyId,
    pub block_tag: BlockTag,
}

/// The text denotes a 32-byte topic word.
pub open spec fn spec_is_valid_topic(s: Seq<char>) -> bool {
    spec_is_hex_word(vstd::utf8::encode_utf8(s), 32)
}

/// The text denotes a 20-byte contract address.
pub open spec fn spec_is_valid_address(s: Seq<char>) -> bool {
    spec_is_hex_word(vstd::utf8::encode_utf8(s), 20)
}

/// Decides whether the text denotes a 32-byte topic word.
pub fn validate_topic(topic: &str) -> (r: bool)
    ensures
        r == spec_is_valid_topic(topic@),
{
    match decode_fixed_hex(topic.as_bytes(), 32) {
        Some(_) => true,
        None => false,
    }
}

/// Checks a list of topic texts: succeeds exactly when every one denotes
/// a 32-byte topic word, and otherwise reports one that does not.
pub fn validate_topics(topics: &Vec<String>) -> (r: Result<(), InvalidStateError>)
    ensures
        r is Ok <==> (forall|i: int|
            0 <= i < topics@.len() ==> spec_is_valid_topic(#[trigger] topics@[i]@)),
        r matches Err(InvalidStateError::InvalidTopic(t)) ==> exists|i: int|
            0 <= i < topics@.len() && !spec_is_valid_topic(#[trigger] topics@[i]@) && t@
                == topics@[i]@,
        r is Err ==> r->Err_0 is InvalidTopic,
{
    let mut i: usize = 0;
    while i < topics.len()
        invariant
            i <= topics@.len(),
            forall|j: int| 0 <= j < i ==> spec_is_valid_topic(#[trigger] topics@[j]@),
        decreases topics@.len() - i,
    {
        if !validate_topic(topics[i].as_str()) {
            return Err(InvalidStateError::InvalidTopic(topics[i].clone()));
        }
        i = i + 1;
    }
    Ok(())
}

/// Checks a list of contract address texts: succeeds exactly when every
/// one denotes a 20-byte address, and otherwise reports one that does
/// not.
pub fn validate_addresses(addresses: &Vec<String>) -> (r: Result<(), InvalidStateError>)
    ensures
        r is Ok <==> (forall|i: int|
            0 <= i < addresses@.len() ==> spec_is_valid_address(#[trigger] addresses@[i]@)),
        r matches Err(InvalidStateError::InvalidEthereumContractAddress(t)) ==> exists|i: int|
            0 <= i < addresses@.len() && !spec_is_valid_address(#[trigger] addresses@[i]@) && t@
                == addresses@[i]@,
        r is Err ==> r->Err_0 is InvalidEthereumContractAddress,
{
    let mut i: usize = 0;
    while i < addresses.len()
        invariant
            i <= addresses@.len(),
            forall|j: int| 0 <= j < i ==> spec_is_valid_address(#[trigger] addresses@[j]@),
        decreases addresses@.len() - i,
    {
        match decode_fixed_hex(addresses[i].as_str().as_bytes(), 20) {
            Some(_) => {},
            None => {
                return Err(
                    InvalidStateError::InvalidEthereumContractAddress(addresses[i].clone()),
                );
            },
        }
        i = i + 1;
    }
    Ok(())
}

/// Every list of the sequence holds only valid topic words.
pub open spec fn spec_topic_lists_valid(tss: Seq<Vec<String>>) -> bool {
    forall|i: int, j: int|
        0 <= i < tss.len() && 0 <= j < tss[i]@.len() ==> spec_is_valid_topic(
            #[trigger] tss[i]@[j]@,
        )
}

/// Every configured topic list holds only valid topic words.
pub open spec fn spec_topics_valid(topics: &Option<Vec<Vec<String>>>) -> bool {
    match topics {
        Some(tss) => spec_topic_lists_valid(tss@),
        None => true,
    }
}

/// Every configured address is a valid contract address.
pub open spec fn spec_addresses_valid(addresses: &Vec<String>) -> bool {
    forall|i: int| 0 <= i < addresses@.len() ==> spec_is_valid_address(#[trigger] addresses@[i]@)
}

impl State {
    /// Validates the installation argument and builds the initial state:
    /// the configuration is taken over as given, the cursor starts at the
    /// configured block, both log maps and the skipped-block record start
    /// empty, no task is in flight, key material is not yet loaded, and
    /// the nonce is zero. Fails exactly when some configured address or
    /// topic does not parse.
    pub fn try_from(arg: InitArg) -> (r: Result<State, InvalidStateError>)
        ensures
            r is Ok <==> spec_addresses_valid(&arg.get_logs_address) && spec_topics_valid(
                &arg.get_logs_topics,
            ),
            r matches Ok(st) ==> st == (State {
                rpc_services: arg.rpc_services,
                get_logs_address: arg.get_logs_address,
                get_logs_topics: arg.get_logs_topics,
                last_scraped_block_number: arg.last_scraped_block_number,
                last_observed_block_number: None,
                logs_to_process: st.logs_to_process,
                processed_logs: st.processed_logs,
                skipped_blocks: st.skipped_blocks,
                active_tasks: st.active_tasks,
                ecdsa_pub_key: None,
                ecdsa_key_id: arg.ecdsa_key_id,
                evm_address: None,
                nonce: 0u128,
                block_tag: arg.block_tag,
            }) && st.logs_to_process@.len() == 0 && st.processed_logs@.len() == 0
                && st.skipped_blocks@.len() == 0 && (forall|t: crate::guard::TaskType|
                !st.active_tasks.spec_contains(t)) && st.wf(),
            r matches Err(e) ==> (e is InvalidEthereumContractAddress ==> !spec_addresses_valid(
                &arg.get_logs_address,
            )) && (e is InvalidTopic ==> !spec_topics_valid(&arg.get_logs_topics)),
    {
        match validate_addresses(&arg.get_logs_address) {
            Ok(()) => {},
            Err(e) => {
                return Err(e);
            },
        }
        match &arg.get_logs_topics {
            Some(tss) => {
                let mut i: usize = 0;
                while i < tss.len()
                    invariant
                        arg.get_logs_topics == Some(*tss),
                        i <= tss@.len(),
                        forall|i2: int, j: int|
                            0 <= i2 < i && 0 <= j < tss@[i2]@.len() ==> spec_is_valid_topic(
                                #[trigger] tss@[i2]@[j]@,
                            ),
                    decreases tss@.len() - i,
                {
                    match validate_topics(&tss[i]) {
                        Ok(()) => {},
                        Err(e) => {
                            proof {
                                let j = choose|j: int|
                                    0 <= j < tss@[i as int]@.len() && !spec_is_valid_topic(
                                        #[trigger] tss@[i as int]@[j]@,
                                    );
                                assert(!spec_is_valid_topic(tss@[i as int]@[j]@));
                                assert(!spec_topic_lists_valid(tss@));
                                assert(!spec_topics_valid(&arg.get_logs_topics));
                            }
                            return Err(e);
                        },
                    }
                    i = i + 1;
                }
            },
            None => {},
        }
        Ok(
            State {
                rpc_services: arg.rpc_services,
                get_logs_address: arg.get_logs_address,
                get_logs_topics: arg.get_logs_topics,
                last_scraped_block_number: arg.last_scraped_block_number,
                last_observed_block_number: None,
                logs_to_process: LogMap::new(),
                processed_logs: LogMap::new(),
                skipped_blocks: Vec::new(),
                active_tasks: TaskSet::new(),
                ecdsa_pub_key: None,
                ecdsa_key_id: arg.ecdsa_key_id,
                evm_address: None,
                nonce: 0,
                block_tag: arg.block_tag,
            },
        )
    }
}

} // verus!
