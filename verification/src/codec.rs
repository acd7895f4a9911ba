use vstd::prelude::*;
use vstd::slice::slice_subrange;
use vstd::utf8::{decode_utf8, valid_utf8};

verus! {

/// The four bytes that stand for `x`, lowest byte first.
pub open spec fn u32_le(x: u32) -> Seq<u8> {
    seq![
        (x % 256) as u8,
        ((x / 256) % 256) as u8,
        ((x / 65536) % 256) as u8,
        ((x / 16777216) % 256) as u8,
    ]
}

/// The number that four bytes stand for, lowest byte first.
pub open spec fn le_u32(bytes: Seq<u8>) -> u32
    recommends
        bytes.len() == 4,
{
    (bytes[0] + 256 * bytes[1] + 65536 * bytes[2] + 16777216 * bytes[3]) as u32
}

/// Reading back the bytes of a number gives the number.
pub proof fn lemma_le_u32_of_u32_le(x: u32)
    ensures
        u32_le(x).len() == 4,
        le_u32(u32_le(x)) == x,
{
}

/// Whether `bytes` is a length-prefixed text: four bytes of length, then exactly
/// that many bytes of well-formed UTF-8.
pub open spec fn is_framed_text(bytes: Seq<u8>) -> bool {
    &&& bytes.len() >= 4
    &&& bytes.len() == 4 + le_u32(bytes.subrange(0, 4))
    &&& valid_utf8(bytes.subrange(4, bytes.len() as int))
}

/// The text that a length-prefixed text holds.
pub open spec fn framed_text(bytes: Seq<u8>) -> Seq<char> {
    decode_utf8(bytes.subrange(4, bytes.len() as int))
}

/// Calls borsh's `BorshSerialize::serialize` for `u32` with `out` as the writer.
/// Trusted: it appends the four little-endian bytes of `x` and nothing else;
/// writing to a vector does not fail.
#[verifier::external_body]
fn borsh_put_u32(x: u32, out: &mut Vec<u8>)
    ensures
        final(out)@ == old(out)@ + u32_le(x),
{
    let _ = borsh::BorshSerialize::serialize(&x, out);
}

/// Calls borsh's `BorshDeserialize::try_from_slice` for `u32`.
/// Trusted: it succeeds exactly on four bytes and reads them little-endian.
#[verifier::external_body]
fn borsh_get_u32(bytes: &[u8]) -> (r: Option<u32>)
    ensures
        r == (if bytes@.len() == 4 {
            Some(le_u32(bytes@))
        } else {
            None
        }),
{
    let parsed: std::io::Result<u32> = borsh::BorshDeserialize::try_from_slice(bytes);
    parsed.ok()
}

/// Calls borsh's `BorshDeserialize::try_from_slice` for `u8`.
/// Trusted: it succeeds exactly on a single byte and returns it.
#[verifier::external_body]
pub(crate) fn borsh_get_u8(bytes: &[u8]) -> (r: Option<u8>)
    ensures
        r == (if bytes@.len() == 1 {
            Some(bytes@[0])
        } else {
            None
        }),
{
    let parsed: std::io::Result<u8> = borsh::BorshDeserialize::try_from_slice(bytes);
    parsed.ok()
}

/// Calls borsh's `BorshDeserialize::try_from_slice` for `String`.
/// Trusted: it succeeds exactly on a length-prefixed text that fills the whole
/// input, and returns the text decoded from UTF-8.
#[verifier::external_body]
pub(crate) fn borsh_get_string(bytes: &[u8]) -> (r: Option<String>)
    ensures
        r is Some <==> is_framed_text(bytes@),
        r matches Some(s) ==> s@ == framed_text(bytes@),
{
    let parsed: std::io::Result<String> = borsh::BorshDeserialize::try_from_slice(bytes);
    parsed.ok()
}

/// The header that a record with this tag and count is stored under.
pub open spec fn header_spec(tag: u32, count: u32) -> Seq<u8> {
    u32_le(tag) + u32_le(count)
}

/// The tag that a buffer's header holds.
pub open spec fn tag_of(data: Seq<u8>) -> u32
    recommends
        data.len() >= 8,
{
    le_u32(data.subrange(0, 4))
}

/// The count that a buffer's header holds.
pub open spec fn count_of(data: Seq<u8>) -> u32
    recommends
        data.len() >= 8,
{
    le_u32(data.subrange(4, 8))
}

/// A buffer keeps the tag and count that its header was written from.
pub proof fn lemma_header_round_trip(tag: u32, count: u32, rest: Seq<u8>)
    ensures
        header_spec(tag, count).len() == 8,
        tag_of(header_spec(tag, count) + rest) == tag,
        count_of(header_spec(tag, count) + rest) == count,
{
    let data = header_spec(tag, count) + rest;
    assert(data.subrange(0, 4) =~= u32_le(tag));
    assert(data.subrange(4, 8) =~= u32_le(count));
    lemma_le_u32_of_u32_le(tag);
    lemma_le_u32_of_u32_le(count);
}

/// The eight header bytes for a tag and a count.
pub fn header_bytes(tag: u32, count: u32) -> (out: Vec<u8>)
    ensures
        out@ == header_spec(tag, count),
        out@.len() == 8,
{
    let mut out: Vec<u8> = Vec::new();
    borsh_put_u32(tag, &mut out);
    borsh_put_u32(count, &mut out);
    assert(out@ =~= header_spec(tag, count));
    out
}

/// Reads the number stored in the four bytes that start at `offset`.
pub fn read_u32_at(data: &[u8], offset: usize) -> (r: Option<u32>)
    ensures
        r == (if offset + 4 <= data@.len() {
            Some(le_u32(data@.subrange(offset as int, offset + 4)))
        } else {
            None
        }),
{
    if data.len() < 4 || offset > data.len() - 4 {
        return None;
    }
    let part = slice_subrange(data, offset, offset + 4);
    borsh_get_u32(part)
}

/// Reads the tag and the count of the header that a buffer starts with.
pub fn read_header(data: &[u8]) -> (r: Option<(u32, u32)>)
    ensures
        r == (if data@.len() >= 8 {
            Some((tag_of(data@), count_of(data@)))
        } else {
            None
        }),
{
    if data.len() < 8 {
        return None;
    }
    let tag = read_u32_at(data, 0);
    let count = read_u32_at(data, 4);
    match (tag, count) {
        (Some(t), Some(c)) => Some((t, c)),
        _ => None,
    }
}

} // verus!
