//! Data model of the multi-provider ledger RPC surface.
//!
//! Values that cross the RPC boundary are held here as plain data: block
//! numbers as `u64`, fee quantities as `u128`, hashes, topics and addresses
//! as raw byte strings (their hexadecimal text is decoded at the boundary,
//! see `hexutil`). A reply from the redundant providers is classified as
//! `Consistent` or `Inconsistent` by `ConsensusReply`.
use vstd::prelude::*;
use vstd::string::StringSliceAdditionalSpecFns;

verus! {

/// Installation argument of the RPC aggregation service.
#[derive(Debug, Clone)]
pub struct InitArgs {
    pub nodes_in_subnet: u32,
}

/// Authorization levels of the RPC aggregation service.
#[derive(Debug, Clone, Copy, PartialEq, Eq, Structural)]
pub enum Auth {
    RegisterProvider,
    FreeRpc,
    PriorityRpc,
    Manage,
}

/// Providers available for the test network.
#[derive(Debug, Clone, Copy, PartialEq, Eq, Structural)]
pub enum EthSepoliaService {
    Alchemy,
    BlockPi,
    PublicNode,
    Ankr,
}

/// Providers available for the main network.
#[derive(Debug, Clone, Copy, PartialEq, Eq, Structural)]
pub enum EthMainnetService {
    Alchemy,
    BlockPi,
    Cloudflare,
    PublicNode,
    Ankr,
}

/// One header of a custom provider endpoint.
#[derive(Debug, Clone)]
pub struct HttpHeader {
    pub value: String,
    pub name: String,
}

/// A custom provider endpoint.
#[derive(Debug, Clone)]
pub struct RpcApi {
    pub url: String,
    pub headers: Option<Vec<HttpHeader>>,
}

/// The set of redundant providers a query is sent to.
#[derive(Debug, Clone)]
pub enum RpcServices {
    EthSepolia(Option<Vec<EthSepoliaService>>),
    Custom { chain_id: u64, services: Vec<RpcApi> },
    EthMainnet(Option<Vec<EthMainnetService>>),
}

/// One provider, named in a per-provider entry of an inconsistent reply.
#[derive(Debug, Clone)]
pub enum RpcService {
    EthSepolia(EthSepoliaService),
    Custom(RpcApi),
    EthMainnet(EthMainnetService),
    Chain(u64),
    Provider(u64),
}

/// Per-call configuration of the RPC aggregation service.
#[derive(Debug, Clone)]
pub struct RpcConfig {
    pub response_size_estimate: Option<u64>,
}

/// Registration data for a new provider.
#[derive(Debug, Clone)]
pub struct RegisterProviderArgs {
    pub cycles_per_call: u64,
    pub credential_path: String,
    pub hostname: String,
    pub credential_headers: Option<Vec<HttpHeader>>,
    pub chain_id: u64,
    pub cycles_per_message_byte: u64,
}

/// Update data for a registered provider.
#[derive(Debug, Clone)]
pub struct UpdateProviderArgs {
    pub cycles_per_call: Option<u64>,
    pub credential_path: Option<String>,
    pub hostname: Option<String>,
    pub credential_headers: Option<Vec<HttpHeader>>,
    pub primary: Option<bool>,
    pub cycles_per_message_byte: Option<u64>,
    pub provider_id: u64,
}

/// Administrative action on a provider.
#[derive(Debug, Clone)]
pub struct ManageProviderArgs {
    pub service: Option<RpcService>,
    pub primary: Option<bool>,
    pub provider_id: u64,
}

/// An error reported by a provider's JSON-RPC layer.
#[derive(Debug, Clone)]
pub struct JsonRpcError {
    pub code: i64,
    pub message: String,
}

/// An error of the aggregation service itself.
#[derive(Debug, Clone)]
pub enum ProviderError {
    TooFewCycles { expected: u128, received: u128 },
    MissingRequiredProvider,
    ProviderNotFound,
    NoPermission,
}

/// A request rejected before it was sent.
#[derive(Debug, Clone)]
pub enum ValidationError {
    CredentialPathNotAllowed,
    HostNotAllowed(String),
    CredentialHeaderNotAllowed,
    UrlParseError(String),
    Custom(String),
    InvalidHex(String),
}

/// Rejection category of a failed outbound call.
#[derive(Debug, Clone, Copy, PartialEq, Eq, Structural)]
pub enum RejectionCode {
    NoError,
    CanisterError,
    SysTransient,
    DestinationInvalid,
    Unknown,
    SysFatal,
    CanisterReject,
}

/// A failure of the HTTP transport under a provider call.
#[derive(Debug, Clone)]
pub enum HttpOutcallError {
    IcError { code: RejectionCode, message: String },
    InvalidHttpJsonRpcResponse { status: u16, body: String, parsing_error: Option<String> },
}

/// Any error a provider call can surface.
#[derive(Debug, Clone)]
pub enum RpcError {
    JsonRpcError(JsonRpcError),
    ProviderError(ProviderError),
    ValidationError(ValidationError),
    HttpOutcallError(HttpOutcallError),
}

/// The block a query is pinned to.
#[derive(Debug, Clone, Copy, PartialEq, Eq, Structural)]
pub enum BlockTag {
    Earliest,
    Safe,
    Finalized,
    Latest,
    Number(u64),
    Pending,
}

/// One observed event, already decoded from its textual form: hashes,
/// topics and addresses as raw bytes, counters as plain integers.
///
/// The `removed` reorganization flag is carried but never consulted.
#[derive(Debug, Clone)]
pub struct LogEntry {
    pub transaction_hash: Option<Vec<u8>>,
    pub block_number: Option<u64>,
    pub data: Vec<u8>,
    pub block_hash: Option<Vec<u8>>,
    pub transaction_index: Option<u64>,
    pub topics: Vec<Vec<u8>>,
    pub address: Vec<u8>,
    pub log_index: Option<u64>,
    pub removed: bool,
}

/// Arguments of a log query.
#[derive(Debug, Clone)]
pub struct GetLogsArgs {
    pub from_block: Option<BlockTag>,
    pub to_block: Option<BlockTag>,
    pub addresses: Vec<String>,
    pub topics: Option<Vec<Vec<String>>>,
}

/// Arguments of a fee-history query.
#[derive(Debug, Clone)]
pub struct FeeHistoryArgs {
    pub block_count: u64,
    pub newest_block: BlockTag,
    pub reward_percentiles: Option<Vec<u8>>,
}

/// Fee history of a window of recent blocks: one base fee and one sampled
/// reward list per block.
#[derive(Debug, Clone)]
pub struct FeeHistory {
    pub reward: Vec<Vec<u128>>,
    pub oldest_block: u64,
    pub base_fee_per_gas: Vec<u128>,
}

/// Arguments of a transaction-count query.
#[derive(Debug, Clone)]
pub struct GetTransactionCountArgs {
    pub address: String,
    pub block: BlockTag,
}

/// Outcome of submitting a signed transaction.
#[derive(Debug, Clone)]
pub enum SendRawTransactionStatus {
    Accepted(Option<String>),
    AlreadyKnown,
    NonceTooLow,
    NonceTooHigh,
    InsufficientFunds,
}

/// A reply gathered from the redundant providers: either all providers
/// agreed on one value, or the per-provider values are handed back.
#[derive(Debug, Clone)]
pub enum ConsensusReply<T> {
    Consistent(T),
    Inconsistent(Vec<(RpcService, T)>),
}

/// `needle` occurs as a contiguous run inside `hay`.
pub open spec fn spec_contains_bytes(hay: Seq<u8>, needle: Seq<u8>) -> bool {
    exists|k: int|
        0 <= k && k + needle.len() <= hay.len() && #[trigger] hay.subrange(k, k + needle.len())
            == needle
}

/// Decides whether `hay` matches `needle` at offset `k`.
fn bytes_match_at(hay: &[u8], needle: &[u8], k: usize) -> (r: bool)
    requires
        k + needle@.len() <= hay@.len(),
    ensures
        r == (hay@.subrange(k as int, k + needle@.len()) == needle@),
{
    let n: usize = needle.len();
    let h: usize = hay.len();
    let mut j: usize = 0;
    while j < n
        invariant
            n == needle@.len(),
            h == hay@.len(),
            k + needle@.len() <= hay@.len(),
            j <= needle@.len(),
            forall|i: int| 0 <= i < j ==> hay@[k + i] == needle@[i],
        decreases needle@.len() - j,
    {
        if hay[k + j] != needle[j] {
            proof {
                assert(hay@.subrange(k as int, k + needle@.len())[j as int] != needle@[j as int]);
            }
            return false;
        }
        j = j + 1;
    }
    proof {
        assert(hay@.subrange(k as int, k + needle@.len()) =~= needle@);
    }
    true
}

/// Decides whether `needle` occurs as a contiguous run inside `hay`.
pub fn contains_bytes(hay: &[u8], needle: &[u8]) -> (r: bool)
    ensures
        r == spec_contains_bytes(hay@, needle@),
{
    if needle.len() > hay.len() {
        proof {
            assert(!spec_contains_bytes(hay@, needle@));
        }
        return false;
    }
    if needle.len() == 0 {
        proof {
            assert(hay@.subrange(0, 0 + needle@.len() as int) =~= needle@);
        }
        return true;
    }
    let mut k: usize = 0;
    let last: usize = hay.len() - needle.len();
    while k <= last
        invariant
            1 <= needle@.len() <= hay@.len(),
            last == hay@.len() - needle@.len(),
            last <= usize::MAX - 1,
            k <= last + 1,
            forall|k2: int|
                0 <= k2 < k ==> #[trigger] hay@.subrange(k2, k2 + needle@.len()) != needle@,
        decreases last + 1 - k,
    {
        if bytes_match_at(hay, needle, k) {
            return true;
        }
        k = k + 1;
    }
    false
}

/// The marker a provider's over-size rejection message carries: the ASCII
/// text `size limit`.
pub open spec fn spec_size_limit_marker() -> Seq<u8> {
    seq![115u8, 105u8, 122u8, 101u8, 32u8, 108u8, 105u8, 109u8, 105u8, 116u8]
}

/// A rejection is an over-size response exactly when it is fatal and its
/// message (given as its UTF-8 bytes) names the provider's size limit.
pub open spec fn spec_is_response_too_large(code: RejectionCode, message: Seq<u8>) -> bool {
    code is SysFatal && spec_contains_bytes(message, spec_size_limit_marker())
}

/// Builds the `size limit` marker bytes.
fn size_limit_marker() -> (r: Vec<u8>)
    ensures
        r@ == spec_size_limit_marker(),
{
    let mut m: Vec<u8> = Vec::new();
    m.push(115);
    m.push(105);
    m.push(122);
    m.push(101);
    m.push(32);
    m.push(108);
    m.push(105);
    m.push(109);
    m.push(105);
    m.push(116);
    proof {
        assert(m@ =~= spec_size_limit_marker());
    }
    m
}

/// Decides whether a rejected outbound call failed because the provider's
/// response size limit was exceeded.
pub fn is_response_too_large(code: &RejectionCode, message: &str) -> (r: bool)
    ensures
        r == spec_is_response_too_large(*code, message.spec_bytes()),
{
    let fatal = match code {
        RejectionCode::SysFatal => true,
        _ => false,
    };
    if !fatal {
        return false;
    }
    let marker = size_limit_marker();
    contains_bytes(message.as_bytes(), marker.as_slice())
}

impl HttpOutcallError {
    /// The error, if a transport rejection, reports an over-size response.
    pub open spec fn spec_response_too_large(&self) -> bool {
        match self {
            HttpOutcallError::IcError { code, message } => spec_is_response_too_large(
                *code,
                vstd::utf8::encode_utf8(message@),
            ),
            _ => false,
        }
    }

    /// Decides whether this error reports an over-size response.
    pub fn is_response_too_large(&self) -> (r: bool)
        ensures
            r == self.spec_response_too_large(),
    {
        match self {
            HttpOutcallError::IcError { code, message } => is_response_too_large(
                code,
                message.as_str(),
            ),
            _ => false,
        }
    }
}

impl RpcError {
    /// The error reports an over-size response.
    pub open spec fn spec_response_too_large(&self) -> bool {
        match self {
            RpcError::HttpOutcallError(e) => e.spec_response_too_large(),
            _ => false,
        }
    }

    /// Decides whether this error reports an over-size response.
    pub fn is_response_too_large(&self) -> (r: bool)
        ensures
            r == self.spec_response_too_large(),
    {
        match self {
            RpcError::HttpOutcallError(e) => e.is_response_too_large(),
            _ => false,
        }
    }
}

/// Chain identifier the configured provider set points at.
pub open spec fn spec_chain_id(services: &RpcServices) -> u64 {
    match services {
        RpcServices::EthSepolia(_) => 11155111u64,
        RpcServices::Custom { chain_id, services } => *chain_id,
        RpcServices::EthMainnet(_) => 1u64,
    }
}

impl RpcServices {
    /// Chain identifier of the configured provider set.
    pub fn chain_id(&self) -> (r: u64)
        ensures
            r == spec_chain_id(self),
    {
        match self {
            RpcServices::EthSepolia(_) => 11155111,
            RpcServices::Custom { chain_id, services: _ } => *chain_id,
            RpcServices::EthMainnet(_) => 1,
        }
    }
}

} // verus!
