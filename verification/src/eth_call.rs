//! Read-only contract calls over plain JSON-RPC.
//!
//! The request is framed here, byte for byte: a fixed call envelope
//! around the target address, the call data and the block tag, all of
//! them hexadecimal or tag text that needs no escaping. The host sends
//! the frame and parses the response envelope; the result text comes
//! back here to be decoded.
use vstd::prelude::*;
use vstd::slice::slice_subrange;
use vstd::string::StringSliceAdditionalSpecFns;
use crate::hexutil::{decode_hex, spec_all_hex, spec_decoded_hex};
use crate::rpc_types::JsonRpcError;

verus! {

/// The target and data of a read-only call.
#[derive(Debug, Clone)]
pub struct EthCallParams {
    pub to: String,
    pub data: String,
}

/// The request envelope of a read-only call.
#[derive(Debug)]
pub struct EthCallJsonRpcRequest {
    pub id: u64,
    pub jsonrpc: String,
    pub method: String,
    pub params: (EthCallParams, String),
}

/// The request envelope of a read-only call (the shape an embedded caller
/// uses; identical to `EthCallJsonRpcRequest`).
#[derive(Debug)]
pub struct JsonRpcRequest {
    pub id: u64,
    pub jsonrpc: String,
    pub method: String,
    pub params: (EthCallParams, String),
}

/// The response envelope of a read-only call.
#[derive(Debug, Clone)]
pub struct JsonRpcResult {
    pub result: Option<String>,
    pub error: Option<JsonRpcError>,
}

/// The text passes into a JSON string without escaping: no quote, no
/// backslash, no control character.
pub open spec fn spec_json_plain(s: Seq<char>) -> bool {
    forall|i: int| 0 <= i < s.len() ==> (#[trigger] s[i]) != '"' && s[i] != '\\' && s[i] as u32
        >= 32
}

/// The call frame around a target, its call data and a block tag.
pub open spec fn spec_eth_call_payload(to: Seq<char>, data: Seq<char>, block: Seq<char>) -> Seq<
    char,
> {
    "{\"id\":1,\"jsonrpc\":\"2.0\",\"method\":\"eth_call\",\"params\":[{\"to\":\""@ + to
        + "\",\"data\":\""@ + data + "\"},\""@ + block + "\"]}"@
}

/// Frames one read-only call as its JSON-RPC request text. The target,
/// the call data and the block tag are hexadecimal or tag text and pass
/// into the frame unescaped.
pub fn build_eth_call_payload(to: &str, data: &str, block: &str) -> (r: String)
    requires
        spec_json_plain(to@),
        spec_json_plain(data@),
        spec_json_plain(block@),
    ensures
        r@ == spec_eth_call_payload(to@, data@, block@),
{
    let mut out = String::from_str("{\"id\":1,\"jsonrpc\":\"2.0\",\"method\":\"eth_call\",\"params\":[{\"to\":\"");
    out.append(to);
    out.append("\",\"data\":\"");
    out.append(data);
    out.append("\"},\"");
    out.append(block);
    out.append("\"]}");
    proof {
        assert(out@ =~= spec_eth_call_payload(to@, data@, block@));
    }
    out
}

/// Decodes a `0x`-prefixed hexadecimal result text into its bytes: the
/// two prefix characters are skipped, the rest must be an even run of
/// hexadecimal digits. Fails exactly when the text is shorter than the
/// prefix or the rest does not decode.
pub fn from_hex(data: &str) -> (r: Option<Vec<u8>>)
    ensures
        r is Some <==> data.spec_bytes().len() >= 2 && (data.spec_bytes().len() - 2) % 2 == 0
            && spec_all_hex(data.spec_bytes().skip(2)),
        r matches Some(v) ==> v@ == spec_decoded_hex(data.spec_bytes().skip(2)),
{
    let bytes = data.as_bytes();
    if bytes.len() < 2 {
        return None;
    }
    let body = slice_subrange(bytes, 2, bytes.len());
    proof {
        assert(body@ =~= data.spec_bytes().skip(2));
    }
    decode_hex(body)
}

/// Reads a call output as one unsigned integer word: exactly 32 bytes,
/// handed back as the word's bytes.
pub fn decode_uint_output(output: &[u8]) -> (r: Option<Vec<u8>>)
    ensures
        r is Some <==> output@.len() == 32,
        r matches Some(v) ==> v@ == output@,
{
    if output.len() != 32 {
        return None;
    }
    let mut word: Vec<u8> = Vec::new();
    word.extend_from_slice(output);
    proof {
        assert(word@ =~= output@);
    }
    Some(word)
}

} // verus!
