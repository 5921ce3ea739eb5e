//! Hexadecimal encoding and decoding of byte strings.
//!
//! Identifiers on the watched ledger (transaction hashes, topics, addresses)
//! travel as hexadecimal text, optionally prefixed with `0x`. Decoding is
//! implemented and verified here; encoding to text goes through the `hex`
//! crate behind an exact contract.
use vstd::prelude::*;
use vstd::slice::slice_subrange;

verus! {

/// True for the byte value of an ASCII hexadecimal digit.
pub open spec fn spec_is_hex_digit(b: u8) -> bool {
    (48 <= b <= 57) || (97 <= b <= 102) || (65 <= b <= 70)
}

/// Numeric value of an ASCII hexadecimal digit byte.
pub open spec fn spec_hex_val(b: u8) -> u8 {
    if 48 <= b <= 57 {
        (b - 48) as u8
    } else if 97 <= b <= 102 {
        (b - 87) as u8
    } else {
        (b - 55) as u8
    }
}

/// Every byte of `s` is an ASCII hexadecimal digit.
pub open spec fn spec_all_hex(s: Seq<u8>) -> bool {
    forall|i: int| 0 <= i < s.len() ==> spec_is_hex_digit(#[trigger] s[i])
}

/// `s` with a leading ASCII `0x`, if any, removed.
pub open spec fn spec_strip_0x(s: Seq<u8>) -> Seq<u8> {
    if s.len() >= 2 && s[0] == 48u8 && s[1] == 120u8 {
        s.subrange(2, s.len() as int)
    } else {
        s
    }
}

/// The bytes denoted by a sequence of ASCII hexadecimal digits of even
/// length, two digits per byte, most significant digit first.
pub open spec fn spec_decoded_hex(s: Seq<u8>) -> Seq<u8> {
    Seq::new(s.len() / 2, |i: int| (16 * spec_hex_val(s[2 * i]) + spec_hex_val(s[2 * i + 1])) as u8)
}

/// Lower-case ASCII hexadecimal digit character for a value below 16.
pub open spec fn spec_hex_char(v: u8) -> char {
    if v < 10 {
        ((48 + v) as u8) as char
    } else {
        ((87 + v) as u8) as char
    }
}

/// Lower-case hexadecimal text for a byte string, two characters per byte.
pub open spec fn spec_hex_lower(bs: Seq<u8>) -> Seq<char> {
    Seq::new(2 * bs.len(), |i: int| if i % 2 == 0 {
        spec_hex_char(bs[i / 2] / 16)
    } else {
        spec_hex_char(bs[i / 2] % 16)
    })
}

/// Decides whether `b` is an ASCII hexadecimal digit.
pub fn is_hex_digit(b: u8) -> (r: bool)
    ensures
        r == spec_is_hex_digit(b),
{
    (48 <= b && b <= 57) || (97 <= b && b <= 102) || (65 <= b && b <= 70)
}

/// Numeric value of an ASCII hexadecimal digit byte.
pub fn hex_val(b: u8) -> (r: u8)
    requires
        spec_is_hex_digit(b),
    ensures
        r == spec_hex_val(b),
        r < 16,
{
    if 48 <= b && b <= 57 {
        b - 48
    } else if 97 <= b && b <= 102 {
        b - 87
    } else {
        b - 55
    }
}

/// Decodes an even-length run of hexadecimal digit bytes into the bytes it
/// denotes. Returns `None` exactly when the length is odd or some byte is
/// not a hexadecimal digit.
pub fn decode_hex(s: &[u8]) -> (r: Option<Vec<u8>>)
    ensures
        r is Some <==> s@.len() % 2 == 0 && spec_all_hex(s@),
        r is Some ==> r->Some_0@ == spec_decoded_hex(s@),
{
    if s.len() % 2 != 0 {
        return None;
    }
    let mut out: Vec<u8> = Vec::new();
    let mut i: usize = 0;
    while i < s.len()
        invariant
            i % 2 == 0,
            i <= s@.len(),
            s@.len() % 2 == 0,
            forall|j: int| 0 <= j < i ==> spec_is_hex_digit(#[trigger] s@[j]),
            out@ == spec_decoded_hex(s@.subrange(0, i as int)),
        decreases s@.len() - i,
    {
        let hi = s[i];
        let lo = s[i + 1];
        if !is_hex_digit(hi) || !is_hex_digit(lo) {
            return None;
        }
        out.push(16 * hex_val(hi) + hex_val(lo));
        i = i + 2;
        proof {
            assert(out@ =~= spec_decoded_hex(s@.subrange(0, i as int)));
        }
    }
    proof {
        assert(s@.subrange(0, s@.len() as int) =~= s@);
    }
    Some(out)
}

/// Strips a leading ASCII `0x`, if present.
pub fn strip_0x(s: &[u8]) -> (r: &[u8])
    ensures
        r@ == spec_strip_0x(s@),
{
    if s.len() >= 2 && s[0] == 48 && s[1] == 120 {
        slice_subrange(s, 2, s.len())
    } else {
        s
    }
}

/// A word of exactly `2 * n` hexadecimal digits, with an optional `0x`
/// prefix: the textual form of an `n`-byte identifier.
pub open spec fn spec_is_hex_word(s: Seq<u8>, n: nat) -> bool {
    spec_strip_0x(s).len() == 2 * n && spec_all_hex(spec_strip_0x(s))
}

/// Decodes the textual form of an `n`-byte identifier (an optional `0x`
/// prefix and exactly `2 * n` hexadecimal digits) into its `n` bytes.
/// Returns `None` exactly when the text is not of that form.
pub fn decode_fixed_hex(s: &[u8], n: usize) -> (r: Option<Vec<u8>>)
    requires
        n <= usize::MAX / 2,
    ensures
        r is Some <==> spec_is_hex_word(s@, n as nat),
        r is Some ==> r->Some_0@ == spec_decoded_hex(spec_strip_0x(s@)),
        r is Some ==> r->Some_0@.len() == n,
{
    let body = strip_0x(s);
    if body.len() != 2 * n {
        return None;
    }
    decode_hex(body)
}

/// Lower-case hexadecimal text for a byte string.
///
/// Relies on `hex::encode`: two lower-case hexadecimal digits per input
/// byte, most significant first.
#[verifier::external_body]
pub fn encode_hex(bs: &Vec<u8>) -> (r: String)
    ensures
        r@ == spec_hex_lower(bs@),
{
    hex::encode(bs)
}

/// Lower-case hexadecimal text for a byte string, prefixed with `0x`.
pub fn encode_hex_0x(bs: &Vec<u8>) -> (r: String)
    ensures
        r@ == seq!['0', 'x'] + spec_hex_lower(bs@),
{
    let mut out = String::from_str("0x");
    proof {
        reveal_strlit("0x");
    }
    let tail = encode_hex(bs);
    out.append(tail.as_str());
    proof {
        assert(out@ =~= seq!['0', 'x'] + spec_hex_lower(bs@));
    }
    out
}

/// The natural number a byte string denotes in big-endian order.
pub open spec fn spec_be_val(s: Seq<u8>) -> nat
    decreases s.len(),
{
    if s.len() == 0 {
        0
    } else {
        spec_be_val(s.drop_last()) * 256 + (s.last() as nat)
    }
}

/// A prefix of a byte string never denotes more than the whole string.
pub proof fn lemma_be_val_prefix_le(s: Seq<u8>, j: int)
    requires
        0 <= j <= s.len(),
    ensures
        spec_be_val(s.subrange(0, j)) <= spec_be_val(s),
    decreases s.len() - j,
{
    if j < s.len() {
        lemma_be_val_prefix_le(s, j + 1);
        let shorter = s.subrange(0, j);
        let longer = s.subrange(0, j + 1);
        assert(longer.drop_last() =~= shorter);
        assert(spec_be_val(longer) == spec_be_val(shorter) * 256 + longer.last());
        assert(spec_be_val(shorter) * 256 >= spec_be_val(shorter)) by (nonlinear_arith);
    } else {
        assert(s.subrange(0, j) =~= s);
    }
}

/// Reads a big-endian byte string as a machine word. Returns `None`
/// exactly when the denoted value exceeds the word's range.
pub fn be_val_u64(s: &[u8]) -> (r: Option<u64>)
    ensures
        r is Some <==> spec_be_val(s@) <= u64::MAX,
        r is Some ==> r->Some_0 == spec_be_val(s@),
{
    let mut acc: u64 = 0;
    let mut i: usize = 0;
    while i < s.len()
        invariant
            i <= s@.len(),
            acc == spec_be_val(s@.subrange(0, i as int)),
        decreases s@.len() - i,
    {
        let t: u128 = (acc as u128) * 256 + (s[i] as u128);
        proof {
            assert(s@.subrange(0, i + 1).drop_last() =~= s@.subrange(0, i as int));
            assert(spec_be_val(s@.subrange(0, i + 1)) == acc * 256 + s@[i as int]);
        }
        if t > u64::MAX as u128 {
            proof {
                lemma_be_val_prefix_le(s@, i + 1);
            }
            return None;
        }
        acc = t as u64;
        i = i + 1;
    }
    proof {
        assert(s@.subrange(0, s@.len() as int) =~= s@);
    }
    Some(acc)
}

/// The `width`-byte big-endian encoding of `n` (mod `256 ^ width`).
pub open spec fn spec_be_bytes(n: nat, width: nat) -> Seq<u8>
    decreases width,
{
    if width == 0 {
        Seq::empty()
    } else {
        spec_be_bytes(n / 256, (width - 1) as nat).push((n % 256) as u8)
    }
}

/// A run of zero bytes.
pub open spec fn spec_zeros(n: nat) -> Seq<u8> {
    Seq::new(n, |i: int| 0u8)
}

} // verus!
