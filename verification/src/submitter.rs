//! The transaction submitter.
//!
//! A job's result is submitted by encoding a contract call — a four-byte
//! selector taken from the hash of the function signature, followed by the
//! standard encoding of the arguments — signing it externally, and sending
//! it through the consensus-checked providers. The account nonce advances
//! by exactly one on a confirmed acceptance and stays put on every
//! rejection; there is no automatic resubmission.
use vstd::prelude::*;
use vstd::string::StringSliceAdditionalSpecFns;
use crate::hexutil::{spec_be_bytes, spec_zeros};
use crate::rpc_types::{ConsensusReply, RpcError, SendRawTransactionStatus};
use crate::signer::{keccak256, keccak256_of, SignRequest};
use crate::fees::FeeEstimates;
use crate::state::State;

verus! {

/// A submission that could not be carried through: the providers
/// disagreed on the outcome, or they agreed on a transport error.
#[derive(Debug, Clone)]
pub enum SubmitError {
    InconsistentResponse,
    Rpc(RpcError),
}

/// The agreed value of one submission: the acceptance status, or the
/// error every provider reported.
#[derive(Debug, Clone)]
pub enum SendRawTransactionResult {
    Status(SendRawTransactionStatus),
    Error(RpcError),
}

/// Classifies a consensus-checked submission reply: an agreed status is
/// handed through; an agreed error and provider disagreement are both
/// fatal for this attempt, with no retry.
pub fn classify_send_reply(reply: ConsensusReply<SendRawTransactionResult>) -> (r: Result<
    SendRawTransactionStatus,
    SubmitError,
>)
    ensures
        forall|st: SendRawTransactionStatus|
            reply == ConsensusReply::Consistent(SendRawTransactionResult::Status(st)) ==> r
                == Ok::<SendRawTransactionStatus, SubmitError>(st),
        forall|e: RpcError|
            reply == ConsensusReply::Consistent(SendRawTransactionResult::Error(e)) ==> r
                == Err::<SendRawTransactionStatus, SubmitError>(SubmitError::Rpc(e)),
        reply is Inconsistent ==> r == Err::<SendRawTransactionStatus, SubmitError>(
            SubmitError::InconsistentResponse,
        ),
{
    match reply {
        ConsensusReply::Consistent(SendRawTransactionResult::Status(st)) => Ok(st),
        ConsensusReply::Consistent(SendRawTransactionResult::Error(e)) => Err(SubmitError::Rpc(e)),
        ConsensusReply::Inconsistent(_) => Err(SubmitError::InconsistentResponse),
    }
}

/// The submission status reports success: the transaction was accepted,
/// or was already known to the network.
pub open spec fn spec_status_is_success(status: SendRawTransactionStatus) -> bool {
    status is Accepted || status is AlreadyKnown
}

/// Applies a submission status to the account nonce: a confirmed
/// acceptance (including an already-known transaction) advances the nonce
/// by exactly one; every rejection leaves it — and all other state —
/// untouched. Hands back whether the nonce advanced.
pub fn apply_send_status(s: &mut State, status: &SendRawTransactionStatus) -> (advanced: bool)
    requires
        old(s).nonce < u128::MAX,
    ensures
        advanced == spec_status_is_success(*status),
        advanced ==> final(s).nonce == old(s).nonce + 1,
        !advanced ==> final(s).nonce == old(s).nonce,
        *final(s) == (State { nonce: final(s).nonce, ..*old(s) }),
{
    match status {
        SendRawTransactionStatus::Accepted(_) => {
            s.nonce = s.nonce + 1;
            true
        },
        SendRawTransactionStatus::AlreadyKnown => {
            s.nonce = s.nonce + 1;
            true
        },
        _ => false,
    }
}

/// Reconciles the nonce with an account transaction count read back from
/// the network after a submission: a count above the local nonce confirms
/// the send and advances the nonce by one; otherwise the nonce is left
/// untouched (resubmission is deliberately not attempted).
pub fn reconcile_nonce(s: &mut State, transaction_count: u128) -> (advanced: bool)
    requires
        old(s).nonce < u128::MAX,
    ensures
        advanced == (transaction_count > old(s).nonce),
        advanced ==> final(s).nonce == old(s).nonce + 1,
        !advanced ==> final(s).nonce == old(s).nonce,
        *final(s) == (State { nonce: final(s).nonce, ..*old(s) }),
{
    if transaction_count > s.nonce {
        s.nonce = s.nonce + 1;
        true
    } else {
        false
    }
}

/// The standard encoding of a text and a 32-byte word as the arguments
/// `(string, uint256)`: the string's offset word, the integer word, then
/// the string's length word and its bytes padded to a word boundary.
pub open spec fn spec_abi_callback_args(result: Seq<u8>, job_id: Seq<u8>) -> Seq<u8> {
    spec_be_bytes(64, 32) + job_id + spec_be_bytes(result.len(), 32) + result + spec_zeros(
        ((32 - result.len() % 32) % 32) as nat,
    )
}

/// Relies on `AbiEncode::encode` of `ethers-core` for a `(String, U256)`
/// pair: the standard head-and-tail encoding of the two arguments, a
/// function of their values alone. The encoder computes the length word
/// and offsets in 32 bits, so the text must stay below that bound.
#[verifier::external_body]
fn abi_encode_callback_args(result: &str, job_id: &[u8]) -> (r: Vec<u8>)
    requires
        job_id@.len() == 32,
        result.spec_bytes().len() < 0x1_0000_0000,
    ensures
        r@ == spec_abi_callback_args(result.spec_bytes(), job_id@),
{
    ethers_core::abi::AbiEncode::encode(
        (result.to_owned(), ethers_core::types::U256::from_big_endian(job_id)),
    )
}

/// Relies on `AbiEncode::encode` of `ethers-core` for a `U256`: the
/// standard encoding of one integer argument is its own 32-byte word.
#[verifier::external_body]
fn abi_encode_uint_word(word: &[u8]) -> (r: Vec<u8>)
    requires
        word@.len() == 32,
    ensures
        r@ == word@,
{
    ethers_core::abi::AbiEncode::encode(ethers_core::types::U256::from_big_endian(word))
}

/// The four-byte selector of a contract function: the leading bytes of
/// the hash of its signature text.
pub open spec fn spec_selector(signature_bytes: Seq<u8>) -> Seq<u8> {
    keccak256_of(signature_bytes).subrange(0, 4)
}

/// Computes a contract function's four-byte selector from its signature
/// text.
pub fn function_selector(signature: &str) -> (r: Vec<u8>)
    ensures
        r@ == spec_selector(signature.spec_bytes()),
{
    let mut hash = keccak256(signature.as_bytes());
    hash.truncate(4);
    proof {
        assert(hash@ =~= spec_selector(signature.spec_bytes()));
    }
    hash
}

/// Call data submitting a job's result: the selector of
/// `callback(string,uint256)` followed by the encoded result text and job
/// identifier.
pub fn build_callback_data(result: &str, job_id: &[u8]) -> (r: Vec<u8>)
    requires
        job_id@.len() == 32,
        result.spec_bytes().len() < 0x1_0000_0000,
    ensures
        r@ == spec_selector("callback(string,uint256)".spec_bytes()) + spec_abi_callback_args(
            result.spec_bytes(),
            job_id@,
        ),
{
    let mut data = function_selector("callback(string,uint256)");
    let args = abi_encode_callback_args(result, job_id);
    data.extend_from_slice(args.as_slice());
    proof {
        assert(data@ =~= spec_selector("callback(string,uint256)".spec_bytes())
            + spec_abi_callback_args(result.spec_bytes(), job_id@));
    }
    data
}

/// Call data asking the contract to run a job: the selector of
/// `executeJob(uint256)` followed by the job identifier's word.
pub fn build_execute_job_data(job_id: &[u8]) -> (r: Vec<u8>)
    requires
        job_id@.len() == 32,
    ensures
        r@ == spec_selector("executeJob(uint256)".spec_bytes()) + job_id@,
{
    let mut data = function_selector("executeJob(uint256)");
    let arg = abi_encode_uint_word(job_id);
    data.extend_from_slice(arg.as_slice());
    proof {
        assert(data@ =~= spec_selector("executeJob(uint256)".spec_bytes()) + job_id@);
    }
    data
}

/// Assembles a plain value transfer: the given amount to the given
/// 20-byte recipient, with no call data, the caller's gas limit (or the
/// plain-transfer default), and the estimated fees.
pub fn transfer_request(
    value: u128,
    to: Vec<u8>,
    gas: Option<u128>,
    nonce: u128,
    chain_id: u64,
    fees: FeeEstimates,
) -> (r: SignRequest)
    requires
        to@.len() == 20,
    ensures
        r.chain_id == chain_id,
        r.to == Some(to),
        r.from is None,
        gas matches Some(g) ==> r.gas == g,
        gas is None ==> r.gas == 21000,
        r.max_fee_per_gas == fees.max_fee_per_gas,
        r.max_priority_fee_per_gas == fees.max_priority_fee_per_gas,
        r.value == value,
        r.nonce == nonce,
        r.data@ == Seq::<u8>::empty(),
{
    let gas_limit = match gas {
        Some(g) => g,
        None => 21000,
    };
    crate::signer::create_sign_request(
        value,
        Some(to),
        None,
        gas_limit,
        None,
        nonce,
        chain_id,
        fees,
    )
}

/// The agreed value of one transaction-count query: the account's count,
/// or the error every provider reported.
#[derive(Debug, Clone)]
pub enum GetTransactionCountResult {
    Count(u128),
    Error(RpcError),
}

/// What a count reader does next.
#[derive(Debug, Clone, Copy, PartialEq, Eq, Structural)]
pub enum CountDecision {
    Accept(u128),
    Retry,
    Fail,
}

/// How often an inconsistent count reply is retried before giving up.
pub const COUNT_RETRY_LIMIT: u8 = 3;

/// Decides what a transaction-count read does with one reply, given how
/// many retries have been spent: an agreed count is accepted, an agreed
/// error is fatal at once, and disagreement is retried up to
/// `COUNT_RETRY_LIMIT` times before it too is fatal.
pub fn transaction_count_step(attempts: u8, reply: &ConsensusReply<GetTransactionCountResult>)
    -> (r: CountDecision)
    ensures
        forall|n: u128|
            *reply == ConsensusReply::Consistent(GetTransactionCountResult::Count(n)) ==> r
                == CountDecision::Accept(n),
        forall|e: RpcError|
            *reply == ConsensusReply::Consistent(GetTransactionCountResult::Error(e)) ==> r
                == CountDecision::Fail,
        reply is Inconsistent && attempts < COUNT_RETRY_LIMIT ==> r == CountDecision::Retry,
        reply is Inconsistent && attempts >= COUNT_RETRY_LIMIT ==> r == CountDecision::Fail,
        r is Retry ==> reply is Inconsistent && attempts < COUNT_RETRY_LIMIT,
        forall|n: u128|
            r == CountDecision::Accept(n) ==> *reply == ConsensusReply::Consistent(
                GetTransactionCountResult::Count(n),
            ),
        r is Fail ==> (reply matches ConsensusReply::Consistent(
            GetTransactionCountResult::Error(_),
        )) || (reply is Inconsistent && attempts >= COUNT_RETRY_LIMIT),
{
    match reply {
        ConsensusReply::Consistent(GetTransactionCountResult::Count(n)) => CountDecision::Accept(
            *n,
        ),
        ConsensusReply::Consistent(GetTransactionCountResult::Error(_)) => CountDecision::Fail,
        ConsensusReply::Inconsistent(_) => {
            if attempts < COUNT_RETRY_LIMIT {
                CountDecision::Retry
            } else {
                CountDecision::Fail
            }
        },
    }
}

/// What a count read resolves to on a run of replies, with `attempts`
/// retries already spent: the first agreed count; nothing on an agreed
/// error, on disagreement past the retry budget, or when the replies run
/// out.
pub open spec fn spec_count_resolution(
    replies: Seq<ConsensusReply<GetTransactionCountResult>>,
    attempts: int,
) -> Option<u128>
    decreases replies.len(),
{
    if replies.len() == 0 {
        None
    } else {
        match replies[0] {
            ConsensusReply::Consistent(GetTransactionCountResult::Count(n)) => Some(n),
            ConsensusReply::Consistent(GetTransactionCountResult::Error(e)) => None,
            ConsensusReply::Inconsistent(per) => if attempts < COUNT_RETRY_LIMIT {
                spec_count_resolution(replies.drop_first(), attempts + 1)
            } else {
                None
            },
        }
    }
}

/// Reads an account's transaction count from a run of consensus-checked
/// replies, taken in order: exactly the resolution the retry policy
/// assigns to the run — the first agreed count is accepted, an agreed
/// error fails at once, and disagreement is retried at most
/// `COUNT_RETRY_LIMIT` times over the whole read. Running out of replies
/// fails.
pub fn resolve_transaction_count(replies: &mut Vec<ConsensusReply<GetTransactionCountResult>>)
    -> (r: Option<u128>)
    ensures
        r == spec_count_resolution(old(replies)@, 0),
        r matches Some(n) ==> exists|i: int|
            0 <= i < old(replies)@.len() && old(replies)@[i] == ConsensusReply::Consistent(
                GetTransactionCountResult::Count(n),
            ),
{
    let mut attempts: u8 = 0;
    let ghost orig = replies@;
    let total: usize = replies.len();
    let mut idx: usize = 0;
    loop
        invariant
            attempts <= COUNT_RETRY_LIMIT,
            orig.len() == total,
            idx <= orig.len(),
            orig == old(replies)@,
            replies@ == orig.subrange(idx as int, orig.len() as int),
            spec_count_resolution(replies@, attempts as int) == spec_count_resolution(orig, 0),
        decreases COUNT_RETRY_LIMIT - attempts + 1,
    {
        if replies.len() == 0 {
            return None;
        }
        let reply = replies.remove(0);
        proof {
            assert(reply == orig[idx as int]);
            assert(replies@ =~= orig.subrange(idx + 1, orig.len() as int));
        }
        let ghost before = orig.subrange(idx as int, orig.len() as int);
        let decision = transaction_count_step(attempts, &reply);
        idx = idx + 1;
        match decision {
            CountDecision::Accept(n) => {
                proof {
                    assert(before[0] == ConsensusReply::Consistent(
                        GetTransactionCountResult::Count(n),
                    ));
                    assert(spec_count_resolution(before, attempts as int) == Some(n));
                }
                return Some(n);
            },
            CountDecision::Fail => {
                proof {
                    assert(spec_count_resolution(before, attempts as int) is None);
                }
                return None;
            },
            CountDecision::Retry => {
                proof {
                    assert(before[0] is Inconsistent && attempts < COUNT_RETRY_LIMIT);
                    assert(before.drop_first() =~= orig.subrange(idx as int, orig.len() as int));
                    assert(spec_count_resolution(before, attempts as int)
                        == spec_count_resolution(before.drop_first(), attempts + 1));
                }
                attempts = attempts + 1;
            },
        }
    }
}

} // verus!
